//! Authentication failures and their rendering as HTTP responses.

use vstd::prelude::*;

verus! {

/// Everything authentication can fail with.
#[derive(Debug, Clone)]
pub enum AuthError {
    /// No usable credential was presented.
    Unauthorized,
    /// The JWT's expiry lies in the past.
    TokenExpired,
    /// The JWT failed signature or shape checks.
    InvalidToken,
    /// The JWT's issuer is not allowed.
    InvalidIssuer,
    /// The principal lacks a required role.
    InsufficientPermissions,
    /// The API key is unknown or disabled.
    InvalidApiKey,
    /// The API key's expiry lies in the past.
    ApiKeyExpired,
    /// The OAuth2 exchange failed, with a reason.
    OAuth2Error(String),
    /// A bug-level failure, with a logged detail.
    InternalError(String),
}

impl AuthError {
    /// The HTTP status and body message this failure renders as.
    pub fn response_parts(&self) -> (r: (u16, String))
        ensures
            r.0 == spec_auth_status(*self),
            *self matches AuthError::OAuth2Error(m) ==> r.1@ == m@,
    {
        match self {
            AuthError::Unauthorized => (401, "未授权访问".to_owned()),
            AuthError::TokenExpired => (401, "Token已过期".to_owned()),
            AuthError::InvalidToken => (401, "Token无效".to_owned()),
            AuthError::InvalidIssuer => (401, "签发者无效".to_owned()),
            AuthError::InsufficientPermissions => (403, "没有足够的权限".to_owned()),
            AuthError::InvalidApiKey => (401, "API Key无效".to_owned()),
            AuthError::ApiKeyExpired => (401, "API Key已过期".to_owned()),
            AuthError::OAuth2Error(msg) => (401, msg.clone()),
            AuthError::InternalError(_) => (500, "内部认证错误".to_owned()),
        }
    }
}

/// The HTTP status for each authentication failure.
pub open spec fn spec_auth_status(e: AuthError) -> u16 {
    match e {
        AuthError::Unauthorized => 401,
        AuthError::TokenExpired => 401,
        AuthError::InvalidToken => 401,
        AuthError::InvalidIssuer => 401,
        AuthError::InsufficientPermissions => 403,
        AuthError::InvalidApiKey => 401,
        AuthError::ApiKeyExpired => 401,
        AuthError::OAuth2Error(_) => 401,
        AuthError::InternalError(_) => 500,
    }
}

} // verus!
