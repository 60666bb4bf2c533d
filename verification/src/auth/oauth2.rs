//! OAuth2 bearer authentication: token extraction from header or query
//! string, and the mapping from a userinfo document to a principal.
//! Fetching the userinfo document is network work and happens outside
//! this crate; the mapping here takes its fields as plain values.

use vstd::prelude::*;
use crate::auth::jwt::UserInfo;
use crate::error::Error;
use crate::headers::{header_get, header_views, spec_header_get};
use crate::json::{json_as_string, json_get, json_get_string, json_string_elements};
use crate::text::{
    is_i64_rep, i64_rep_value, is_prefix_of, parse_i64, split_on, split_string, str_starts_with,
    tail_from,
};

verus! {

/// The first segment of `segs` that starts with `pre`.
pub open spec fn spec_first_with_prefix(segs: Seq<Seq<char>>, pre: Seq<char>) -> Option<int>
    decreases segs.len(),
{
    if segs.len() == 0 {
        None
    } else if is_prefix_of(pre, segs[0]) {
        Some(0)
    } else {
        match spec_first_with_prefix(segs.drop_first(), pre) {
            Some(i) => Some(i + 1),
            None => None,
        }
    }
}

/// The bearer token in a query string: the remainder of the first
/// `&`-separated segment that starts with `access_token=`.
pub open spec fn spec_query_access_token(query: Seq<char>) -> Option<Seq<char>> {
    let segs = split_on(query, '&');
    match spec_first_with_prefix(segs, "access_token="@) {
        Some(i) => Some(segs[i].subrange("access_token="@.len() as int, segs[i].len() as int)),
        None => None,
    }
}

fn query_access_token(query: &str) -> (r: Option<String>)
    ensures
        match spec_query_access_token(query@) {
            Some(t) => r matches Some(s) && s@ == t,
            None => r is None,
        },
{
    let segs = split_string(query, '&');
    let ghost seg_views = segs@.map_values(|p: String| p@);
    let mut i: usize = 0;
    while i < segs.len()
        invariant
            0 <= i <= segs@.len(),
            seg_views == segs@.map_values(|p: String| p@),
            seg_views == split_on(query@, '&'),
            forall|j: int| 0 <= j < i ==> !is_prefix_of("access_token="@, #[trigger] seg_views[j]),
        decreases segs@.len() - i,
    {
        if str_starts_with(segs[i].as_str(), "access_token=") {
            proof {
                lemma_first_with_prefix_hit(seg_views, "access_token="@, i as int);
            }
            let token = tail_from(segs[i].as_str(), "access_token=".unicode_len());
            return Some(token);
        }
        i += 1;
    }
    proof {
        lemma_first_with_prefix_miss(seg_views, "access_token="@);
    }
    None
}

proof fn lemma_first_with_prefix_hit(segs: Seq<Seq<char>>, pre: Seq<char>, i: int)
    requires
        0 <= i < segs.len(),
        is_prefix_of(pre, segs[i]),
        forall|j: int| 0 <= j < i ==> !is_prefix_of(pre, #[trigger] segs[j]),
    ensures
        spec_first_with_prefix(segs, pre) == Some(i),
    decreases segs.len(),
{
    if i > 0 {
        lemma_first_with_prefix_hit(segs.drop_first(), pre, i - 1);
    }
}

proof fn lemma_first_with_prefix_miss(segs: Seq<Seq<char>>, pre: Seq<char>)
    requires
        forall|j: int| 0 <= j < segs.len() ==> !is_prefix_of(pre, #[trigger] segs[j]),
    ensures
        spec_first_with_prefix(segs, pre) is None,
    decreases segs.len(),
{
    if segs.len() > 0 {
        lemma_first_with_prefix_miss(segs.drop_first(), pre);
    }
}

/// The OAuth2 bearer for a request: the `Authorization` header's value
/// after `Bearer `, or failing that the query's `access_token`.
pub open spec fn spec_oauth_token(
    headers: Seq<(Seq<char>, Seq<char>)>,
    query: Option<Seq<char>>,
) -> Option<Seq<char>> {
    let from_header = match spec_header_get(headers, "Authorization"@) {
        Some(v) => if is_prefix_of("Bearer "@, v) {
            Some(v.subrange("Bearer "@.len() as int, v.len() as int))
        } else {
            None
        },
        None => None,
    };
    match from_header {
        Some(t) => Some(t),
        None => match query {
            Some(q) => spec_query_access_token(q),
            None => None,
        },
    }
}

/// Extracts the OAuth2 bearer from the `Authorization` header or the
/// `access_token` query parameter.
pub fn extract_oauth_token(headers: &Vec<(String, String)>, query: Option<&str>) -> (r: Option<
    String,
>)
    ensures
        match spec_oauth_token(
            header_views(headers@),
            match query {
                Some(q) => Some(q@),
                None => None,
            },
        ) {
            Some(t) => r matches Some(s) && s@ == t,
            None => r is None,
        },
{
    match header_get(headers, "Authorization") {
        Some(v) => {
            if str_starts_with(v.as_str(), "Bearer ") {
                return Some(tail_from(v.as_str(), "Bearer ".unicode_len()));
            }
        }
        None => {}
    }
    match query {
        Some(q) => query_access_token(q),
        None => None,
    }
}

/// The principal a userinfo document yields, taking the already-read
/// string fields: the user id text (from `sub`, or `id` when `sub` is
/// absent; `None` when the chosen member is missing or not a string),
/// the username text (from `name`, `username` or `email`, whichever is
/// present first, `None` when missing or not a string), the email, and
/// the roles.  The user id must be a decimal `i64`; a missing username
/// falls back to `oauth_user`; the email is carried into the extra
/// attributes.
pub fn userinfo_principal(
    user_id_text: Option<&String>,
    username_text: Option<&String>,
    email: Option<&String>,
    roles: Option<&Vec<String>>,
) -> (r: Result<UserInfo, Error>)
    ensures
        user_id_text is None ==> r matches Err(Error::OAuth2Error(_)),
        (match user_id_text {
            Some(s) => {
                &&& (!is_i64_rep(s@) ==> r matches Err(Error::OAuth2Error(_)))
                &&& (is_i64_rep(s@) ==> (r matches Ok(u) && u.user_id == i64_rep_value(s@)
                    && u.username@ == (match username_text {
                    Some(n) => n@,
                    None => "oauth_user"@,
                }) && u.roles@ == (match roles {
                    Some(rs) => rs@,
                    None => Seq::<String>::empty(),
                }) && (match email {
                    Some(e) => u.extra@.len() == 1 && u.extra@[0].0@ == "email"@
                        && u.extra@[0].1@ == e@,
                    None => u.extra@.len() == 0,
                })))
            },
            None => true,
        }),
{
    let id_str: &String = match user_id_text {
        Some(s) => s,
        None => {
            return Err(Error::OAuth2Error("无法获取用户ID".to_owned()));
        }
    };
    let user_id = match parse_i64(id_str.as_str()) {
        Some(v) => v,
        None => {
            return Err(Error::OAuth2Error("无效的用户ID格式".to_owned()));
        }
    };
    let username_val: String = match username_text {
        Some(n) => n.clone(),
        None => "oauth_user".to_owned(),
    };
    let roles_val: Vec<String> = match roles {
        Some(rs) => rs.clone(),
        None => Vec::new(),
    };
    let mut extra: Vec<(String, String)> = Vec::new();
    match email {
        Some(e) => {
            extra.push(("email".to_owned(), e.clone()));
        }
        None => {}
    }
    Ok(UserInfo { user_id, username: username_val, roles: roles_val, extra })
}

/// Maps a fetched userinfo document to a principal.  The user id
/// member is `sub`, or `id` when `sub` is absent — a present member of
/// the wrong type is an error, not a fallback; the username member is
/// the first present of `name`, `username` and `email`, with
/// `oauth_user` standing in when it is missing or not a string.  A
/// `roles` array keeps its string elements and drops the rest; a
/// missing or non-array `roles` means no roles.  The judgement itself
/// is `userinfo_principal`'s, which carries the exact contract.
pub fn authenticate_oauth2(userinfo: &serde_json::Value) -> (r: Result<UserInfo, Error>)
    ensures
        !(r matches Err(Error::Unauthorized)),
{
    let user_id_text = match json_get(userinfo, "sub") {
        Some(member) => json_as_string(member),
        None => match json_get(userinfo, "id") {
            Some(member) => json_as_string(member),
            None => None,
        },
    };
    let username_text = match json_get(userinfo, "name") {
        Some(member) => json_as_string(member),
        None => match json_get(userinfo, "username") {
            Some(member) => json_as_string(member),
            None => match json_get(userinfo, "email") {
                Some(member) => json_as_string(member),
                None => None,
            },
        },
    };
    let email = json_get_string(userinfo, "email");
    let roles = match json_get(userinfo, "roles") {
        Some(member) => json_string_elements(member),
        None => None,
    };
    match userinfo_principal(
        user_id_text.as_ref(),
        username_text.as_ref(),
        email.as_ref(),
        roles.as_ref(),
    ) {
        Ok(u) => Ok(u),
        Err(e) => Err(e),
    }
}

} // verus!
