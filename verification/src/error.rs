//! Shared errors for provider operations and gateway requests.
use core::time::Duration;
use vstd::prelude::*;

verus! {

/// A provider failure expressed independently of the provider's API.
#[derive(Debug)]
#[non_exhaustive]
pub enum LlmError {
    /// The provider rejected the request as invalid.
    InvalidRequest {
        /// Details explaining why the request was rejected.
        message: String,
    },
    /// The provider did not accept the supplied credentials.
    AuthenticationFailed,
    /// The caller does not have permission to perform this operation.
    PermissionDenied,
    /// The provider rejected the request because a rate limit was reached.
    RateLimited {
        /// Suggested delay before retrying, when available. Ferox does not retry automatically.
        retry_after: Option<Duration>,
    },
    /// The request timed out locally or at the provider.
    Timeout,
    /// The provider returned a server error.
    ProviderUnavailable {
        /// HTTP status code returned by the provider.
        code: u16,
        /// Error details returned by the provider.
        message: String,
    },
    /// The provider reported a failure without a more specific error classification.
    ProviderFailure {
        /// Details of the provider failure.
        message: String,
    },
    /// Sending the request or reading the response failed.
    Transport {
        /// Details of the connection or data transfer failure.
        message: String,
    },
    /// The response could not be decoded or was missing required data.
    InvalidResponse {
        /// Details of the unexpected response data.
        message: String,
    },
    /// The provider advertised an input or output format that ferox does not recognise.
    InvalidModelModality {
        /// Unrecognised format name from the provider's model metadata.
        modality: String,
    },
}

/// A gateway request failure.
///
/// The gateway forwards provider failures through [`GatewayError::Llm`]. The other
/// variants describe routing and policy failures and are not emitted by it.
#[derive(Debug)]
#[non_exhaustive]
pub enum GatewayError {
    /// The requested model identifier is unsupported.
    UnsupportedModel(String),
    /// The named provider has not been configured.
    ProviderNotConfigured(String),
    /// Gateway policy denied the request.
    PolicyDenied,
    /// The underlying provider operation failed.
    Llm(LlmError),
}

impl From<LlmError> for GatewayError {
    fn from(error: LlmError) -> (wrapped: Self) {
        GatewayError::Llm(error)
    }
}

impl vstd::std_specs::convert::FromSpecImpl<LlmError> for GatewayError {
    open spec fn obeys_from_spec() -> bool {
        true
    }

    open spec fn from_spec(v: LlmError) -> Self {
        GatewayError::Llm(v)
    }
}

} // verus!
