//! The gateway: sends completion and model-list requests to one configured
//! provider and reports provider failures as gateway errors.
use crate::error::{GatewayError, LlmError};
use vstd::prelude::*;

verus! {

/// Sends requests to one configured provider.
///
/// Provider failures are returned as [`GatewayError::Llm`].
pub struct Gateway<P> {
    provider: P,
}

/// What the gateway hands back for a provider's outcome: the value unchanged, or
/// the failure wrapped as [`GatewayError::Llm`].
pub open spec fn forwarded<T>(result: Result<T, LlmError>) -> Result<T, GatewayError> {
    match result {
        Ok(v) => Ok(v),
        Err(e) => Err(GatewayError::Llm(e)),
    }
}

impl<P> Gateway<P> {
    /// The provider the gateway owns.
    pub closed spec fn spec_provider(self) -> P {
        self.provider
    }

    /// Creates a gateway that owns the supplied provider.
    pub fn new(provider: P) -> (gateway: Self)
        ensures
            gateway.spec_provider() == provider,
    {
        Gateway { provider }
    }

    /// The provider requests are sent to.
    pub fn provider(&self) -> (provider: &P)
        ensures
            *provider == self.spec_provider(),
    {
        &self.provider
    }
}

/// Passes on what a provider returned through the gateway: a value unchanged, a
/// failure as [`GatewayError::Llm`]. Completions, stream starts, stream items and
/// model lists all go through here.
pub fn forward<T>(result: Result<T, LlmError>) -> (out: Result<T, GatewayError>)
    ensures
        out == forwarded(result),
{
    match result {
        Ok(v) => Ok(v),
        Err(e) => Err(GatewayError::from(e)),
    }
}

} // verus!
