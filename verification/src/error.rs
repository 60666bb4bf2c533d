//! The gateway's error taxonomy and its mapping to HTTP statuses.

use vstd::prelude::*;

verus! {

/// Everything the gateway may surface to a client.
#[derive(Debug, Clone)]
pub enum Error {
    /// A bug-level failure; the detail is logged, not shown.
    Internal(String),
    /// No usable credential was presented.
    Unauthorized,
    /// The JWT's expiry lies in the past.
    TokenExpired,
    /// The JWT failed signature or shape checks.
    InvalidToken,
    /// The JWT's issuer is not an allowed issuer.
    InvalidIssuer,
    /// The principal lacks a required role.
    InsufficientPermissions,
    /// The API key is unknown or disabled.
    InvalidApiKey,
    /// The API key's expiry lies in the past.
    ApiKeyExpired,
    /// The OAuth2 userinfo exchange failed, with a reason.
    OAuth2Error(String),
    /// No route matches the request path.
    NotFound(String),
    /// The request is malformed.
    BadRequest(String),
    /// The request method is outside the proxy's allowlist.
    MethodNotAllowed,
    /// The request body exceeds the configured limit.
    RequestTooLarge,
    /// A rate limiter denied the request; seconds to wait.
    RateLimited(u64),
    /// The upstream call failed at the transport level.
    BadGateway(String),
    /// The breaker is open, no instances are known, or no auth scheme
    /// is enabled; the payload names the service.
    ServiceUnavailable(String),
    /// The request deadline passed.
    GatewayTimeout,
}

impl Error {
    /// The HTTP status this error renders as.
    pub fn status_code(&self) -> (r: u16)
        ensures
            r == spec_status_code(*self),
    {
        match self {
            Error::Internal(_) => 500,
            Error::Unauthorized => 401,
            Error::TokenExpired => 401,
            Error::InvalidToken => 401,
            Error::InvalidIssuer => 401,
            Error::InsufficientPermissions => 403,
            Error::InvalidApiKey => 401,
            Error::ApiKeyExpired => 401,
            Error::OAuth2Error(_) => 401,
            Error::NotFound(_) => 404,
            Error::BadRequest(_) => 400,
            Error::MethodNotAllowed => 405,
            Error::RequestTooLarge => 413,
            Error::RateLimited(_) => 429,
            Error::BadGateway(_) => 502,
            Error::ServiceUnavailable(_) => 503,
            Error::GatewayTimeout => 504,
        }
    }
}

/// The status for each error kind, as the error table defines it.
pub open spec fn spec_status_code(e: Error) -> u16 {
    match e {
        Error::Internal(_) => 500,
        Error::Unauthorized => 401,
        Error::TokenExpired => 401,
        Error::InvalidToken => 401,
        Error::InvalidIssuer => 401,
        Error::InsufficientPermissions => 403,
        Error::InvalidApiKey => 401,
        Error::ApiKeyExpired => 401,
        Error::OAuth2Error(_) => 401,
        Error::NotFound(_) => 404,
        Error::BadRequest(_) => 400,
        Error::MethodNotAllowed => 405,
        Error::RequestTooLarge => 413,
        Error::RateLimited(_) => 429,
        Error::BadGateway(_) => 502,
        Error::ServiceUnavailable(_) => 503,
        Error::GatewayTimeout => 504,
    }
}

} // verus!
