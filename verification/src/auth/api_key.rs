//! API-key authentication: a static key table, with per-key enablement
//! and an optional RFC 3339 expiry.

use vstd::prelude::*;
use crate::config::auth_config::{ApiKeyConfig, ApiKeyInfo};
use crate::error::Error;
use crate::auth::jwt::UserInfo;
use crate::headers::{header_get, header_views, spec_header_get};
use crate::text::str_eq;

verus! {

/// What `chrono::DateTime::parse_from_rfc3339` makes of a string: the
/// instant's Unix timestamp when the string is a valid RFC 3339
/// datetime, `None` otherwise.
pub uninterp spec fn rfc3339_epoch(s: Seq<char>) -> Option<i64>;

/// Relies on chrono::DateTime::parse_from_rfc3339: validity and the
/// parsed instant depend on the string alone, so the outcome is named
/// `rfc3339_epoch`.
#[verifier::external_body]
fn parse_rfc3339_epoch(s: &str) -> (r: Option<i64>)
    ensures
        r == rfc3339_epoch(s@),
{
    match chrono::DateTime::parse_from_rfc3339(s) {
        Ok(d) => Some(d.timestamp()),
        Err(_) => None,
    }
}

/// The index of the first table entry for `key`.
pub open spec fn spec_key_index(table: Seq<(String, ApiKeyInfo)>, key: Seq<char>) -> Option<int>
    decreases table.len(),
{
    if table.len() == 0 {
        None
    } else if table[0].0@ == key {
        Some(0)
    } else {
        match spec_key_index(table.drop_first(), key) {
            Some(i) => Some(i + 1),
            None => None,
        }
    }
}

fn find_api_key(table: &Vec<(String, ApiKeyInfo)>, key: &str) -> (r: Option<usize>)
    ensures
        match r {
            Some(i) => spec_key_index(table@, key@) == Some(i as int) && i < table@.len(),
            None => spec_key_index(table@, key@) is None,
        },
{
    let mut i: usize = 0;
    while i < table.len()
        invariant
            0 <= i <= table@.len(),
            forall|j: int| 0 <= j < i ==> (#[trigger] table@[j]).0@ != key@,
        decreases table@.len() - i,
    {
        if str_eq(table[i].0.as_str(), key) {
            proof {
                lemma_key_index_hit(table@, key@, i as int);
            }
            return Some(i);
        }
        i += 1;
    }
    proof {
        lemma_key_index_miss(table@, key@);
    }
    None
}

proof fn lemma_key_index_hit(table: Seq<(String, ApiKeyInfo)>, key: Seq<char>, i: int)
    requires
        0 <= i < table.len(),
        table[i].0@ == key,
        forall|j: int| 0 <= j < i ==> (#[trigger] table[j]).0@ != key,
    ensures
        spec_key_index(table, key) == Some(i),
    decreases table.len(),
{
    if i > 0 {
        lemma_key_index_hit(table.drop_first(), key, i - 1);
    }
}

proof fn lemma_key_index_miss(table: Seq<(String, ApiKeyInfo)>, key: Seq<char>)
    requires
        forall|j: int| 0 <= j < table.len() ==> (#[trigger] table[j]).0@ != key,
    ensures
        spec_key_index(table, key) is None,
    decreases table.len(),
{
    if table.len() > 0 {
        lemma_key_index_miss(table.drop_first(), key);
    }
}

/// A key entry's expiry has passed at `now` (seconds since the epoch).
pub open spec fn spec_key_expired(info: ApiKeyInfo, now: u64) -> bool {
    match info.expires_at {
        Some(s) => match rfc3339_epoch(s@) {
            Some(t) => (t as int) < (now as int),
            None => false,
        },
        None => false,
    }
}

/// A key entry carries an expiry string that does not parse.
pub open spec fn spec_key_bad_expiry(info: ApiKeyInfo) -> bool {
    match info.expires_at {
        Some(s) => rfc3339_epoch(s@) is None,
        None => false,
    }
}

/// A key entry is accepted at `now`: enabled, with a well-formed and
/// unexpired (or absent) expiry, and tied to a user.
pub open spec fn spec_key_accepts(info: ApiKeyInfo, now: u64) -> bool {
    &&& info.enabled
    &&& !spec_key_bad_expiry(info)
    &&& !spec_key_expired(info, now)
    &&& info.user_id is Some
}

/// Authenticates by API key at time `now`: the key comes from the
/// configured header and is looked up in the table.  A missing or
/// unknown key, or a disabled entry, is `InvalidApiKey`; a passed
/// expiry is `ApiKeyExpired`; an expiry string that does not parse,
/// or an entry with no user id, is an internal error; otherwise the
/// entry's name and permissions become the principal.
pub fn authenticate_api_key(
    headers: &Vec<(String, String)>,
    config: &ApiKeyConfig,
    now: u64,
) -> (r: Result<UserInfo, Error>)
    ensures
        ({
            match spec_header_get(header_views(headers@), config.header_name@) {
                Some(key) => {
                    match spec_key_index(config.api_keys@, key) {
                        Some(i) => {
                            let info = config.api_keys@[i].1;
                            &&& (!info.enabled ==> r matches Err(Error::InvalidApiKey))
                            &&& (info.enabled && spec_key_expired(info, now) ==> r matches Err(
                                Error::ApiKeyExpired,
                            ))
                            &&& (info.enabled && !spec_key_expired(info, now)
                                && spec_key_bad_expiry(info) ==> r matches Err(Error::Internal(_)))
                            &&& (info.enabled && !spec_key_expired(info, now)
                                && !spec_key_bad_expiry(info) && info.user_id is None ==> r matches
                                Err(Error::Internal(_)))
                            &&& (spec_key_accepts(info, now) ==> (r matches Ok(u) && u.user_id
                                == info.user_id->0 && u.username@ == info.name@ && u.roles@
                                == info.permissions@ && u.extra@.len() == 0))
                        },
                        None => r matches Err(Error::InvalidApiKey),
                    }
                },
                None => r matches Err(Error::InvalidApiKey),
            }
        }),
{
    let key = match header_get(headers, config.header_name.as_str()) {
        Some(k) => k,
        None => {
            return Err(Error::InvalidApiKey);
        }
    };
    let idx = match find_api_key(&config.api_keys, key.as_str()) {
        Some(i) => i,
        None => {
            return Err(Error::InvalidApiKey);
        }
    };
    let info = &config.api_keys[idx].1;
    if !info.enabled {
        return Err(Error::InvalidApiKey);
    }
    match &info.expires_at {
        Some(expires_at) => {
            match parse_rfc3339_epoch(expires_at.as_str()) {
                Some(expiry) => {
                    let expired: bool = if now > i64::MAX as u64 {
                        true
                    } else {
                        expiry < now as i64
                    };
                    if expired {
                        return Err(Error::ApiKeyExpired);
                    }
                }
                None => {
                    return Err(Error::Internal("无效的API Key过期时间格式".to_owned()));
                }
            }
        }
        None => {}
    }
    let user_id = match info.user_id {
        Some(id) => id,
        None => {
            return Err(Error::Internal("API Key未关联用户ID".to_owned()));
        }
    };
    Ok(
        UserInfo {
            user_id,
            username: info.name.clone(),
            roles: info.permissions.clone(),
            extra: Vec::new(),
        },
    )
}

} // verus!
