//! Errors of the OpenAI-compatible client and how they become provider-neutral errors.
use crate::error::LlmError;
use vstd::prelude::*;

verus! {

/// An HTTP client error as the adapter sees it.
#[verifier::external_type_specification]
#[verifier::external_body]
pub struct ExReqwestError(reqwest::Error);

/// A failure talking to an OpenAI-compatible provider.
#[derive(Debug)]
pub enum OpenAiClientError {
    /// Sending the request or reading the response failed.
    Transport {
        /// Whether the failure was a timeout.
        timed_out: bool,
        /// The transport's description of the failure.
        message: String,
    },
    /// The provider answered with a status outside `200..300`.
    Status {
        /// HTTP status code.
        code: u16,
        /// Response body.
        body: String,
    },
    /// The response body could not be decoded, or the request could not be encoded.
    Decode {
        /// The decoder's description of the failure.
        message: String,
    },
    /// A line of the event stream was not valid UTF-8.
    Utf8 {
        /// The decoder's description of the failure.
        message: String,
    },
}

/// A failure building the client.
#[derive(Debug)]
pub enum ClientBuildError {
    /// No base URL was given to the builder.
    MissingBaseUrl,
    /// The HTTP client could not be created.
    HttpClient(reqwest::Error),
}

/// The provider-neutral error for each adapter failure, by status code where there is one.
pub open spec fn llm_error_for(error: OpenAiClientError) -> LlmError {
    match error {
        OpenAiClientError::Transport { timed_out, message } => if timed_out {
            LlmError::Timeout
        } else {
            LlmError::Transport { message }
        },
        OpenAiClientError::Status { code, body } => if code == 401 {
            LlmError::AuthenticationFailed
        } else if code == 403 {
            LlmError::PermissionDenied
        } else if code == 429 {
            LlmError::RateLimited { retry_after: None }
        } else if code == 400 || code == 422 {
            LlmError::InvalidRequest { message: body }
        } else if code == 408 {
            LlmError::Timeout
        } else if 500 <= code <= 599 {
            LlmError::ProviderUnavailable { code, message: body }
        } else {
            LlmError::ProviderFailure { message: body }
        },
        OpenAiClientError::Decode { message } => LlmError::InvalidResponse { message },
        OpenAiClientError::Utf8 { message } => LlmError::InvalidResponse { message },
    }
}

impl From<OpenAiClientError> for LlmError {
    fn from(error: OpenAiClientError) -> (mapped: Self) {
        match error {
            OpenAiClientError::Transport { timed_out, message } => {
                if timed_out {
                    LlmError::Timeout
                } else {
                    LlmError::Transport { message }
                }
            },
            OpenAiClientError::Status { code, body } => {
                if code == 401 {
                    LlmError::AuthenticationFailed
                } else if code == 403 {
                    LlmError::PermissionDenied
                } else if code == 429 {
                    LlmError::RateLimited { retry_after: None }
                } else if code == 400 || code == 422 {
                    LlmError::InvalidRequest { message: body }
                } else if code == 408 {
                    LlmError::Timeout
                } else if 500 <= code && code <= 599 {
                    LlmError::ProviderUnavailable { code, message: body }
                } else {
                    LlmError::ProviderFailure { message: body }
                }
            },
            OpenAiClientError::Decode { message } => LlmError::InvalidResponse { message },
            OpenAiClientError::Utf8 { message } => LlmError::InvalidResponse { message },
        }
    }
}

impl vstd::std_specs::convert::FromSpecImpl<OpenAiClientError> for LlmError {
    open spec fn obeys_from_spec() -> bool {
        true
    }

    open spec fn from_spec(v: OpenAiClientError) -> Self {
        llm_error_for(v)
    }
}

/// What a status error keeps: a rejected request (400 or 422) keeps the provider's
/// body as its message; a server failure (500 to 599) keeps both the status code
/// and the body; any other unsuccessful status without a classification of its own
/// (anything but 401, 403, 408 and 429) is a provider failure with the body.
pub proof fn law_status_errors_keep_body(code: u16, body: String)
    ensures
        (code == 400 || code == 422) ==> llm_error_for(status_error(code, body)) == (
        LlmError::InvalidRequest { message: body }),
        500 <= code <= 599 ==> llm_error_for(status_error(code, body)) == (
        LlmError::ProviderUnavailable { code, message: body }),
        !(200 <= code < 300) && code != 400 && code != 401 && code != 403 && code != 408 && code
            != 422 && code != 429 && !(500 <= code <= 599) ==> llm_error_for(
            status_error(code, body),
        ) == (LlmError::ProviderFailure { message: body }),
{
}

/// Each other adapter failure keeps its kind and its details: a transport
/// timeout is a timeout and any other transport failure keeps its message; 401
/// is an authentication failure, 403 a permission failure, 429 a rate limit
/// with no retry delay and 408 a timeout; an undecodable response or invalid
/// UTF-8 is an invalid response that keeps the decoder's message.
pub proof fn law_failures_keep_their_kind(error: OpenAiClientError)
    ensures
        error matches OpenAiClientError::Transport { timed_out: true, .. } ==> llm_error_for(error)
            is Timeout,
        error matches OpenAiClientError::Transport { timed_out: false, message } ==> llm_error_for(
            error,
        ) == (LlmError::Transport { message }),
        error matches OpenAiClientError::Status { code: 401, .. } ==> llm_error_for(error)
            is AuthenticationFailed,
        error matches OpenAiClientError::Status { code: 403, .. } ==> llm_error_for(error)
            is PermissionDenied,
        error matches OpenAiClientError::Status { code: 429, .. } ==> llm_error_for(error) == (
        LlmError::RateLimited { retry_after: None }),
        error matches OpenAiClientError::Status { code: 408, .. } ==> llm_error_for(error) is Timeout,
        error matches OpenAiClientError::Decode { message } ==> llm_error_for(error) == (
        LlmError::InvalidResponse { message }),
        error matches OpenAiClientError::Utf8 { message } ==> llm_error_for(error) == (
        LlmError::InvalidResponse { message }),
{
}

/// The error for an unsuccessful status.
pub open spec fn status_error(code: u16, body: String) -> OpenAiClientError {
    OpenAiClientError::Status { code, body }
}

} // verus!

