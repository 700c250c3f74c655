use vstd::prelude::*;

verus! {

/// Why a request, a store operation or an upstream provider call failed.
///
/// `Unauthorized` is the only error a protected handler itself raises;
/// `UpstreamAuthError` covers provider rejection and transport failure;
/// `StoreError` covers database failure or a constraint violation;
/// `MissingExpiry` marks a provider token response without a lifetime.
#[derive(Clone, Copy, Debug, PartialEq, Eq, Structural)]
pub enum ApiError {
    Unauthorized,
    UpstreamAuthError,
    StoreError,
    MissingExpiry,
}

impl ApiError {
    /// The HTTP status an error is reported with.
    pub fn status_code(&self) -> (code: u16)
        ensures
            code == self.spec_status_code(),
    {
        match self {
            ApiError::Unauthorized => 401,
            ApiError::UpstreamAuthError => 401,
            ApiError::StoreError => 500,
            ApiError::MissingExpiry => 500,
        }
    }

    /// The status each variant maps to.
    pub open spec fn spec_status_code(self) -> u16 {
        match self {
            ApiError::Unauthorized => 401u16,
            ApiError::UpstreamAuthError => 401u16,
            ApiError::StoreError => 500u16,
            ApiError::MissingExpiry => 500u16,
        }
    }
}

} // verus!
