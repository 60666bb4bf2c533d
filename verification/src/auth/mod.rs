//! The unified authentication entry: whitelist bypasses first, then
//! whichever of the JWT, API-key and OAuth2 schemes is enabled.

pub mod api_key;
pub mod error;
pub mod jwt;
pub mod middleware;
pub mod oauth2;

use vstd::prelude::*;
use crate::config::auth_config::AuthConfig;
use crate::error::Error;
use crate::headers::{header_get, header_views, spec_header_get};
use crate::text::{
    any_is_prefix_of, is_prefix_of, spec_trimmed, split_on, split_string, trim_spaces,
    vec_contains_str,
};
use self::jwt::{authenticate_jwt, UserInfo};
use self::api_key::authenticate_api_key;
use self::oauth2::extract_oauth_token;

verus! {

/// The client IP a request reports: the first comma-separated element
/// of `X-Forwarded-For` (trimmed), else `X-Real-IP`, else the socket
/// peer address.
pub open spec fn spec_client_ip(
    headers: Seq<(Seq<char>, Seq<char>)>,
    peer: Option<Seq<char>>,
) -> Option<Seq<char>> {
    match spec_header_get(headers, "X-Forwarded-For"@) {
        Some(v) => Some(spec_trimmed(split_on(v, ',')[0])),
        None => match spec_header_get(headers, "X-Real-IP"@) {
            Some(v) => Some(v),
            None => peer,
        },
    }
}

/// Reads the client IP from the forwarding headers, falling back to
/// the socket peer address.
pub fn get_client_ip(headers: &Vec<(String, String)>, peer: Option<&String>) -> (r: Option<String>)
    ensures
        match spec_client_ip(
            header_views(headers@),
            match peer {
                Some(p) => Some(p@),
                None => None,
            },
        ) {
            Some(ip) => r matches Some(s) && s@ == ip,
            None => r is None,
        },
{
    match header_get(headers, "X-Forwarded-For") {
        Some(v) => {
            let parts = split_string(v.as_str(), ',');
            let first = trim_spaces(parts[0].as_str());
            Some(first)
        }
        None => match header_get(headers, "X-Real-IP") {
            Some(v) => Some(v),
            None => match peer {
                Some(p) => Some(p.clone()),
                None => None,
            },
        },
    }
}

/// Whether the request bypasses authentication: its path starts with a
/// whitelisted prefix, or its client IP is whitelisted.
pub open spec fn spec_auth_bypassed(
    config: AuthConfig,
    headers: Seq<(Seq<char>, Seq<char>)>,
    path: Seq<char>,
    peer: Option<Seq<char>>,
) -> bool {
    ||| exists|i: int|
        0 <= i < config.path_whitelist@.len() && is_prefix_of(
            (#[trigger] config.path_whitelist@[i])@,
            path,
        )
    ||| (match spec_client_ip(headers, peer) {
        Some(ip) => exists|i: int|
            0 <= i < config.ip_whitelist@.len() && (#[trigger] config.ip_whitelist@[i])@ == ip,
        None => false,
    })
}

/// Whitelist dominance: a request whose path starts with any entry of
/// the path whitelist bypasses authentication, whatever its headers,
/// client address or credentials — and by `authenticate`'s contract a
/// bypassed request gets `Ok(None)`: no principal and no error.
pub proof fn lemma_whitelist_dominates(
    config: AuthConfig,
    headers: Seq<(Seq<char>, Seq<char>)>,
    path: Seq<char>,
    peer: Option<Seq<char>>,
    i: int,
)
    requires
        0 <= i < config.path_whitelist@.len(),
        is_prefix_of(config.path_whitelist@[i]@, path),
    ensures
        spec_auth_bypassed(config, headers, path, peer),
{
}

/// The unified authentication entry at time `now`.  A request on a
/// whitelisted path, or from a whitelisted client IP, passes through
/// with no principal attached — and those are the only requests that
/// do.  Otherwise the enabled scheme judges the request: JWT and
/// API-key entirely in this crate, OAuth2 by accepting the extracted
/// bearer with a placeholder principal (the userinfo exchange lives
/// with the caller; see `oauth2`).  With no scheme enabled the gateway
/// is misconfigured and the request is `ServiceUnavailable`.
pub fn authenticate(
    headers: &Vec<(String, String)>,
    path: &str,
    query: Option<&str>,
    peer: Option<&String>,
    config: &AuthConfig,
    now: u64,
) -> (r: Result<Option<UserInfo>, Error>)
    ensures
        ({
            let peer_view: Option<Seq<char>> = match peer {
                Some(p) => Some(p@),
                None => None,
            };
            let bypassed = spec_auth_bypassed(*config, header_views(headers@), path@, peer_view);
            &&& (bypassed <==> r matches Ok(None))
            &&& (bypassed ==> !(r matches Err(_)))
            &&& (!bypassed && config.jwt.enabled ==> ({
                let token = crate::auth::jwt::spec_jwt_token(header_views(headers@), config.jwt);
                &&& (token is None <==> r matches Err(Error::Unauthorized))
                &&& (match token {
                    Some(t) => {
                        &&& (crate::auth::jwt::spec_token_accepts(t, config.jwt, now) ==> (
                        r matches Ok(Some(u)) && crate::auth::jwt::spec_token_principal(
                            t,
                            config.jwt,
                            u,
                        )))
                        &&& (!crate::auth::jwt::spec_token_accepts(t, config.jwt, now)
                            ==> r == Err::<Option<UserInfo>, Error>(
                            crate::auth::jwt::spec_token_error(t, config.jwt, now),
                        ))
                    },
                    None => true,
                })
            }))
            &&& (!bypassed && !config.jwt.enabled && config.api_key.enabled ==> ({
                match spec_header_get(header_views(headers@), config.api_key.header_name@) {
                    Some(key) => {
                        match crate::auth::api_key::spec_key_index(config.api_key.api_keys@, key) {
                            Some(i) => {
                                let info = config.api_key.api_keys@[i].1;
                                &&& (!info.enabled ==> r matches Err(Error::InvalidApiKey))
                                &&& (info.enabled && crate::auth::api_key::spec_key_expired(
                                    info,
                                    now,
                                ) ==> r matches Err(Error::ApiKeyExpired))
                                &&& (info.enabled && !crate::auth::api_key::spec_key_expired(
                                    info,
                                    now,
                                ) && crate::auth::api_key::spec_key_bad_expiry(info) ==> r matches
                                    Err(Error::Internal(_)))
                                &&& (info.enabled && !crate::auth::api_key::spec_key_expired(
                                    info,
                                    now,
                                ) && !crate::auth::api_key::spec_key_bad_expiry(info)
                                    && info.user_id is None ==> r matches Err(Error::Internal(_)))
                                &&& (crate::auth::api_key::spec_key_accepts(info, now) ==> (
                                r matches Ok(Some(u)) && u.user_id == info.user_id->0 && u.username@
                                    == info.name@ && u.roles@ == info.permissions@ && u.extra@.len()
                                    == 0))
                            },
                            None => r matches Err(Error::InvalidApiKey),
                        }
                    },
                    None => r matches Err(Error::InvalidApiKey),
                }
            }))
            &&& (!bypassed && !config.jwt.enabled && !config.api_key.enabled
                && config.oauth2.enabled ==> ({
                let token = crate::auth::oauth2::spec_oauth_token(
                    header_views(headers@),
                    match query {
                        Some(q) => Some(q@),
                        None => None,
                    },
                );
                &&& (token is None <==> r matches Err(Error::Unauthorized))
                &&& (token is Some ==> (r matches Ok(Some(u)) && u.user_id == 10000 && u.username@
                    == "oauth_user"@))
            }))
            &&& (!bypassed && !config.jwt.enabled && !config.api_key.enabled
                && !config.oauth2.enabled ==> r matches Err(Error::ServiceUnavailable(_)))
        }),
{
    if any_is_prefix_of(&config.path_whitelist, path) {
        return Ok(None);
    }
    let client_ip = get_client_ip(headers, peer);
    match &client_ip {
        Some(ip) => {
            if vec_contains_str(&config.ip_whitelist, ip.as_str()) {
                return Ok(None);
            }
        }
        None => {}
    }
    if config.jwt.enabled {
        match authenticate_jwt(headers, &config.jwt, now) {
            Ok(user) => Ok(Some(user)),
            Err(e) => Err(e),
        }
    } else if config.api_key.enabled {
        match authenticate_api_key(headers, &config.api_key, now) {
            Ok(user) => Ok(Some(user)),
            Err(e) => Err(e),
        }
    } else if config.oauth2.enabled {
        match extract_oauth_token(headers, query) {
            Some(_) => {
                // the userinfo exchange happens outside; until its result is
                // mapped by `oauth2::authenticate_oauth2`, the bearer stands
                // for a fixed placeholder principal
                let mut roles: Vec<String> = Vec::new();
                roles.push("user".to_owned());
                Ok(
                    Some(
                        UserInfo {
                            user_id: 10000,
                            username: "oauth_user".to_owned(),
                            roles,
                            extra: Vec::new(),
                        },
                    ),
                )
            }
            None => Err(Error::Unauthorized),
        }
    } else {
        Err(Error::ServiceUnavailable("auth".to_owned()))
    }
}

} // verus!
