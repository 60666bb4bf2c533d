//! JWT authentication: token extraction, signature verification through
//! the JWT library, and the verified claim handling — which claims are
//! required, their types, the expiry, issuer and subject checks — on
//! the decoded document.

use vstd::prelude::*;
use crate::config::auth_config::JwtConfig;
use crate::error::Error;
use crate::headers::{header_get, header_views, spec_header_get};
use crate::json_text::{
    member_get, member_views, parse_json_string, parse_json_string_array,
    parse_json_string_object, parse_json_u64, spec_json_string, spec_json_string_array,
    spec_json_string_object, spec_json_u64, spec_member,
};
use crate::text::{is_i64_rep, i64_rep_value, is_prefix_of, parse_i64, str_starts_with, tail_from};

verus! {

/// The principal attached to a request after successful auth.
#[derive(Debug, Clone)]
pub struct UserInfo {
    /// The authenticated user.
    pub user_id: i64,
    /// Display name.
    pub username: String,
    /// Roles the user holds.
    pub roles: Vec<String>,
    /// Additional attributes.
    pub extra: Vec<(String, String)>,
}

/// The claims carried in a JWT, as plain values.
#[derive(Debug, Clone)]
pub struct Claims {
    /// Subject: the user id, in decimal.
    pub sub: String,
    /// Issuer, when present.
    pub iss: Option<String>,
    /// Expiry, seconds since the epoch.
    pub exp: u64,
    /// Issued-at, seconds since the epoch.
    pub iat: u64,
    /// Display name.
    pub username: String,
    /// Roles granted by the token.
    pub roles: Vec<String>,
    /// Additional attributes.
    pub extra: Vec<(String, String)>,
}

/// The claims of a decoded token, at the specification level.
pub struct ClaimsModel {
    /// Subject characters.
    pub sub: Seq<char>,
    /// Issuer characters, when the claim is present.
    pub iss: Option<Seq<char>>,
    /// Expiry, seconds since the epoch.
    pub exp: u64,
    /// Issued-at, seconds since the epoch.
    pub iat: u64,
    /// Display-name characters.
    pub username: Seq<char>,
    /// Role character sequences.
    pub roles: Seq<Seq<char>>,
    /// Additional attribute pairs.
    pub extra: Seq<(Seq<char>, Seq<char>)>,
}

/// What decoding a token against a secret yields at the signature
/// level: each top-level claim of the payload, as its name and its
/// compact serialized text, when the token's shape and signature are
/// acceptable.  The outcome depends on the token and the secret alone.
pub uninterp spec fn jwt_members_of(token: Seq<char>, secret: Seq<char>) -> Option<
    Seq<(Seq<char>, Seq<char>)>,
>;

/// Relies on std::time::SystemTime::now: the seconds since the Unix
/// epoch as the system clock reports them, and zero for a clock before
/// the epoch.
#[verifier::external_body]
pub fn current_timestamp() -> u64 {
    match std::time::SystemTime::now().duration_since(std::time::UNIX_EPOCH) {
        Ok(d) => d.as_secs(),
        Err(_) => 0,
    }
}

/// Relies on jsonwebtoken::decode with HS256 and on serde_json's
/// compact serializer: checks the token's shape and signature against
/// `secret` and hands over each top-level claim as its name and its
/// serialized text, one pair per member.  The JWT library's clock-based
/// expiry check is turned off and its required-claims set emptied, so
/// the outcome depends on the token and the secret alone and is named
/// `jwt_members_of`; everything that reads the claims is verified code
/// above this call.  The audience check keeps its default: a token
/// carrying an `aud` claim is rejected, as with the original
/// validation settings.
#[verifier::external_body]
fn jwt_decode_members(token: &str, secret: &str) -> (r: Option<Vec<(String, String)>>)
    ensures
        match jwt_members_of(token@, secret@) {
            Some(ms) => r matches Some(v) && member_views(v@) == ms,
            None => r is None,
        },
{
    let mut validation = jsonwebtoken::Validation::new(jsonwebtoken::Algorithm::HS256);
    validation.validate_exp = false;
    validation.required_spec_claims = std::collections::HashSet::new();
    let key = jsonwebtoken::DecodingKey::from_secret(secret.as_bytes());
    match jsonwebtoken::decode::<serde_json::Value>(token, &key, &validation) {
        Ok(data) => match data.claims.as_object() {
            Some(map) => Some(map.iter().map(|(k, v)| (k.clone(), v.to_string())).collect()),
            None => None,
        },
        Err(_) => None,
    }
}

/// The claims this gateway understands, read off the decoded member
/// list: `sub` and `username` must be strings, `exp` and `iat`
/// unsigned integers; `iss` may be absent but must be a string when
/// present, `roles` an array of strings, `extra` an object with
/// string values — a wrongly typed claim rejects the token, as the
/// original's deserialization did.
pub open spec fn spec_claims_from_members(ms: Seq<(Seq<char>, Seq<char>)>) -> Option<ClaimsModel> {
    match spec_member(ms, "sub"@) {
        Some(sub_text) => match spec_json_string(sub_text) {
            Some(sub) => match spec_member(ms, "exp"@) {
                Some(exp_text) => match spec_json_u64(exp_text) {
                    Some(exp) => match spec_member(ms, "iat"@) {
                        Some(iat_text) => match spec_json_u64(iat_text) {
                            Some(iat) => match spec_member(ms, "username"@) {
                                Some(username_text) => match spec_json_string(username_text) {
                                    Some(username) => {
                                        let iss_read = match spec_member(ms, "iss"@) {
                                            Some(t) => match spec_json_string(t) {
                                                Some(v) => Some(Some(v)),
                                                None => None,
                                            },
                                            None => Some(None),
                                        };
                                        let roles_read = match spec_member(ms, "roles"@) {
                                            Some(t) => match spec_json_string_array(t) {
                                                Some(v) => Some(v),
                                                None => None,
                                            },
                                            None => Some(Seq::empty()),
                                        };
                                        let extra_read = match spec_member(ms, "extra"@) {
                                            Some(t) => match spec_json_string_object(t) {
                                                Some(v) => Some(v),
                                                None => None,
                                            },
                                            None => Some(Seq::empty()),
                                        };
                                        match (iss_read, roles_read, extra_read) {
                                            (Some(iss), Some(roles), Some(extra)) => Some(
                                                ClaimsModel {
                                                    sub,
                                                    iss,
                                                    exp,
                                                    iat,
                                                    username,
                                                    roles,
                                                    extra,
                                                },
                                            ),
                                            _ => None,
                                        }
                                    },
                                    None => None,
                                },
                                None => None,
                            },
                            None => None,
                        },
                        None => None,
                    },
                    None => None,
                },
                None => None,
            },
            None => None,
        },
        None => None,
    }
}

/// Reads the gateway's claims off a decoded member list, exactly as
/// `spec_claims_from_members` states.
pub fn claims_from_members(members: &Vec<(String, String)>) -> (r: Option<Claims>)
    ensures
        match spec_claims_from_members(member_views(members@)) {
            Some(m) => r matches Some(c) && c.sub@ == m.sub && (match m.iss {
                Some(v) => c.iss matches Some(s) && s@ == v,
                None => c.iss is None,
            }) && c.exp == m.exp && c.iat == m.iat && c.username@ == m.username && c.roles@
                .map_values(|s: String| s@) == m.roles && c.extra@.map_values(
                |p: (String, String)| (p.0@, p.1@),
            ) == m.extra,
            None => r is None,
        },
{
    let sub = match member_get(members, "sub") {
        Some(text) => match parse_json_string(text.as_str()) {
            Some(s) => s,
            None => {
                return None;
            }
        },
        None => {
            return None;
        }
    };
    let exp = match member_get(members, "exp") {
        Some(text) => match parse_json_u64(text.as_str()) {
            Some(v) => v,
            None => {
                return None;
            }
        },
        None => {
            return None;
        }
    };
    let iat = match member_get(members, "iat") {
        Some(text) => match parse_json_u64(text.as_str()) {
            Some(v) => v,
            None => {
                return None;
            }
        },
        None => {
            return None;
        }
    };
    let username = match member_get(members, "username") {
        Some(text) => match parse_json_string(text.as_str()) {
            Some(s) => s,
            None => {
                return None;
            }
        },
        None => {
            return None;
        }
    };
    let iss = match member_get(members, "iss") {
        Some(text) => match parse_json_string(text.as_str()) {
            Some(s) => Some(s),
            None => {
                return None;
            }
        },
        None => None,
    };
    let roles = match member_get(members, "roles") {
        Some(text) => match parse_json_string_array(text.as_str()) {
            Some(v) => v,
            None => {
                return None;
            }
        },
        None => Vec::new(),
    };
    let extra = match member_get(members, "extra") {
        Some(text) => match parse_json_string_object(text.as_str()) {
            Some(v) => v,
            None => {
                return None;
            }
        },
        None => Vec::new(),
    };
    Some(Claims { sub, iss, exp, iat, username, roles, extra })
}

/// The claims a decoded token carries: the signature-checked member
/// list, read by the verified claim policy.
pub open spec fn jwt_claims_of(token: Seq<char>, secret: Seq<char>) -> Option<ClaimsModel> {
    match jwt_members_of(token, secret) {
        Some(ms) => spec_claims_from_members(ms),
        None => None,
    }
}

/// Whether a claims model passes the configured issuer check.
pub open spec fn spec_model_issuer_ok(m: ClaimsModel, cfg: JwtConfig) -> bool {
    if cfg.verify_issuer && cfg.allowed_issuers@.len() > 0 {
        match m.iss {
            Some(iss) => exists|i: int|
                0 <= i < cfg.allowed_issuers@.len() && (#[trigger] cfg.allowed_issuers@[i])@ == iss,
            None => false,
        }
    } else {
        true
    }
}

/// Whether verifying `token` against `cfg` at time `now` succeeds: the
/// token decodes, its expiry lies after `now`, its issuer passes the
/// configured check, and its subject is a decimal `i64`.
pub open spec fn spec_token_accepts(token: Seq<char>, cfg: JwtConfig, now: u64) -> bool {
    match jwt_claims_of(token, cfg.secret@) {
        Some(m) => m.exp > now && spec_model_issuer_ok(m, cfg) && is_i64_rep(m.sub),
        None => false,
    }
}

/// The error a rejected token yields: expiry first, then issuer, then
/// everything else as an invalid token.
pub open spec fn spec_token_error(token: Seq<char>, cfg: JwtConfig, now: u64) -> Error {
    match jwt_claims_of(token, cfg.secret@) {
        Some(m) => if m.exp <= now {
            Error::TokenExpired
        } else if !spec_model_issuer_ok(m, cfg) {
            Error::InvalidIssuer
        } else {
            Error::InvalidToken
        },
        None => Error::InvalidToken,
    }
}

/// Whether `u` is the principal an accepted token denotes.
pub open spec fn spec_token_principal(token: Seq<char>, cfg: JwtConfig, u: UserInfo) -> bool {
    match jwt_claims_of(token, cfg.secret@) {
        Some(m) => u.user_id == i64_rep_value(m.sub) && u.username@ == m.username && u.roles@
            .map_values(|s: String| s@) == m.roles && u.extra@.map_values(
            |p: (String, String)| (p.0@, p.1@),
        ) == m.extra,
        None => false,
    }
}

/// Whether the claims' issuer passes the configured issuer check.
pub open spec fn spec_issuer_ok(claims: Claims, cfg: JwtConfig) -> bool {
    if cfg.verify_issuer && cfg.allowed_issuers@.len() > 0 {
        match claims.iss {
            Some(iss) => exists|i: int|
                0 <= i < cfg.allowed_issuers@.len() && cfg.allowed_issuers@[i]@ == iss@,
            None => false,
        }
    } else {
        true
    }
}

/// Turns verified claims into a principal: the expiry must lie after
/// `now`, the issuer must pass the configured check, and the subject
/// must be a decimal `i64`.  Each failure maps to its own error.
pub fn principal_from_claims(claims: &Claims, cfg: &JwtConfig, now: u64) -> (r: Result<
    UserInfo,
    Error,
>)
    ensures
        claims.exp <= now ==> r matches Err(Error::TokenExpired),
        claims.exp > now && !spec_issuer_ok(*claims, *cfg) ==> r matches Err(Error::InvalidIssuer),
        claims.exp > now && spec_issuer_ok(*claims, *cfg) && !is_i64_rep(claims.sub@) ==> r matches
            Err(Error::InvalidToken),
        claims.exp > now && spec_issuer_ok(*claims, *cfg) && is_i64_rep(claims.sub@) ==> (r matches
            Ok(u) && u.user_id == i64_rep_value(claims.sub@) && u.username@ == claims.username@
            && u.roles@ == claims.roles@ && u.extra@ == claims.extra@),
{
    if claims.exp <= now {
        return Err(Error::TokenExpired);
    }
    if cfg.verify_issuer && cfg.allowed_issuers.len() > 0 {
        let ok = match &claims.iss {
            Some(iss) => crate::text::vec_contains_str(&cfg.allowed_issuers, iss.as_str()),
            None => false,
        };
        if !ok {
            return Err(Error::InvalidIssuer);
        }
    }
    match parse_i64(claims.sub.as_str()) {
        Some(user_id) => {
            let roles = claims.roles.clone();
            let extra = clone_string_pairs(&claims.extra);
            proof {
                assert forall|k: int|
                    0 <= k < claims.roles@.len() implies #[trigger] roles@[k]
                    == claims.roles@[k] by {
                    assert(cloned::<String>(claims.roles@[k], roles@[k]));
                }
                assert(roles@ =~= claims.roles@);
            }
            Ok(UserInfo { user_id, username: claims.username.clone(), roles, extra })
        }
        None => Err(Error::InvalidToken),
    }
}

/// Copies a list of string pairs, keeping every entry equal.
pub fn clone_string_pairs(v: &Vec<(String, String)>) -> (r: Vec<(String, String)>)
    ensures
        r@ == v@,
{
    let mut out: Vec<(String, String)> = Vec::new();
    let mut i: usize = 0;
    while i < v.len()
        invariant
            0 <= i <= v@.len(),
            out@ == v@.subrange(0, i as int),
        decreases v@.len() - i,
    {
        out.push((v[i].0.clone(), v[i].1.clone()));
        proof {
            assert(out@ =~= v@.subrange(0, i + 1));
        }
        i += 1;
    }
    proof {
        assert(v@.subrange(0, v@.len() as int) =~= v@);
    }
    out
}

/// Verifies a bearer token against the JWT settings at time `now`: the
/// signature through the JWT library, then the verified claim checks.
/// Acceptance and the resulting principal or error are exactly the
/// ones `spec_token_accepts`, `spec_token_principal` and
/// `spec_token_error` state over the decoded claims.
pub fn verify_token(token: &str, jwt_config: &JwtConfig, now: u64) -> (r: Result<UserInfo, Error>)
    ensures
        spec_token_accepts(token@, *jwt_config, now) ==> (r matches Ok(u) && spec_token_principal(
            token@,
            *jwt_config,
            u,
        )),
        !spec_token_accepts(token@, *jwt_config, now) ==> r == Err::<UserInfo, Error>(
            spec_token_error(token@, *jwt_config, now),
        ),
{
    let members = match jwt_decode_members(token, jwt_config.secret.as_str()) {
        Some(members) => members,
        None => {
            return Err(Error::InvalidToken);
        }
    };
    match claims_from_members(&members) {
        Some(claims) => {
            proof {
                let m = jwt_claims_of(token@, jwt_config.secret@)->0;
                assert(spec_issuer_ok(claims, *jwt_config) == spec_model_issuer_ok(
                    m,
                    *jwt_config,
                )) by {
                    if jwt_config.verify_issuer && jwt_config.allowed_issuers@.len() > 0 {
                        match m.iss {
                            Some(v) => {
                                assert(claims.iss matches Some(s) && s@ == v);
                            },
                            None => {
                                assert(claims.iss is None);
                            },
                        }
                    }
                }
            }
            let r = principal_from_claims(&claims, jwt_config, now);
            proof {
                let m = jwt_claims_of(token@, jwt_config.secret@)->0;
                if spec_token_accepts(token@, *jwt_config, now) {
                    let u = r->Ok_0;
                    assert(u.roles@ == claims.roles@);
                    assert(u.roles@.map_values(|s: String| s@) == m.roles);
                    assert(u.extra@ == claims.extra@);
                    assert(u.extra@.map_values(|p: (String, String)| (p.0@, p.1@)) == m.extra);
                }
            }
            r
        }
        None => Err(Error::InvalidToken),
    }
}

/// The token under `prefix` in a header value: the remainder of the
/// value when it starts with the prefix.
pub open spec fn spec_token_of(value: Seq<char>, prefix: Seq<char>) -> Option<Seq<char>> {
    if is_prefix_of(prefix, value) {
        Some(value.subrange(prefix.len() as int, value.len() as int))
    } else {
        None
    }
}

/// Strips the configured prefix from the auth header's value.
pub fn extract_token(header_value: Option<&String>, header_prefix: &str) -> (r: Option<String>)
    ensures
        match header_value {
            Some(v) => match spec_token_of(v@, header_prefix@) {
                Some(t) => r matches Some(s) && s@ == t,
                None => r is None,
            },
            None => r is None,
        },
{
    match header_value {
        Some(v) => {
            if str_starts_with(v.as_str(), header_prefix) {
                Some(tail_from(v.as_str(), header_prefix.unicode_len()))
            } else {
                None
            }
        }
        None => None,
    }
}

/// The bearer token a header list carries under the configured header
/// and prefix, if any.
pub open spec fn spec_jwt_token(
    headers: Seq<(Seq<char>, Seq<char>)>,
    cfg: JwtConfig,
) -> Option<Seq<char>> {
    match spec_header_get(headers, cfg.header_name@) {
        Some(v) => spec_token_of(v, cfg.header_prefix@),
        None => None,
    }
}

/// Authenticates a request's headers under the JWT scheme: the token
/// comes from the configured header under the configured prefix; a
/// missing or unprefixed header is `Unauthorized`, and a present token
/// is judged exactly as `verify_token` states.
pub fn authenticate_jwt(headers: &Vec<(String, String)>, jwt_config: &JwtConfig, now: u64) -> (r:
    Result<UserInfo, Error>)
    ensures
        spec_jwt_token(header_views(headers@), *jwt_config) is None <==> r matches Err(
            Error::Unauthorized,
        ),
        (match spec_jwt_token(header_views(headers@), *jwt_config) {
            Some(t) => {
                &&& (spec_token_accepts(t, *jwt_config, now) ==> (r matches Ok(u)
                    && spec_token_principal(t, *jwt_config, u)))
                &&& (!spec_token_accepts(t, *jwt_config, now) ==> r == Err::<UserInfo, Error>(
                    spec_token_error(t, *jwt_config, now),
                ))
            },
            None => true,
        }),
{
    let value = header_get(headers, jwt_config.header_name.as_str());
    match extract_token(value.as_ref(), jwt_config.header_prefix.as_str()) {
        Some(token) => verify_token(token.as_str(), jwt_config, now),
        None => Err(Error::Unauthorized),
    }
}

} // verus!
