//! Path rewriting and URL assembly for the proxy stage.

use vstd::prelude::*;
use crate::config::routes_config::PathRewrite;
use crate::headers::{header_set, header_views, spec_header_get};
use crate::text::{is_prefix_of, str_starts_with, tail_from};

verus! {

/// What `regex::Regex::replace_all` produces for a pattern, a text and
/// a replacement: `None` when the pattern does not compile, otherwise
/// the text with every non-overlapping match replaced.
pub uninterp spec fn regex_replaced(
    pattern: Seq<char>,
    text: Seq<char>,
    replacement: Seq<char>,
) -> Option<Seq<char>>;

/// Relies on regex::Regex::new and regex::Regex::replace_all: compiling
/// `pattern` and replacing every non-overlapping match in `text` with
/// `replacement` — in which `$`-references expand to capture groups —
/// depends on the three strings alone, so the outcome is named
/// `regex_replaced`; an invalid pattern yields `None`.
#[verifier::external_body]
fn regex_replace_all(pattern: &str, text: &str, replacement: &str) -> (r: Option<String>)
    ensures
        match regex_replaced(pattern@, text@, replacement@) {
            Some(m) => r is Some && r->0@ == m,
            None => r is None,
        },
{
    match regex::Regex::new(pattern) {
        Ok(re) => Some(re.replace_all(text, replacement).into_owned()),
        Err(_) => None,
    }
}

/// The path after the prefix-replacement half of a rewrite rule.  The
/// seam never doubles a slash: a replacement ending in `/` loses it
/// when the kept remainder starts with one.
pub open spec fn spec_prefix_rewritten(
    path: Seq<char>,
    path_prefix: Seq<char>,
    rewrite: PathRewrite,
) -> Seq<char> {
    match rewrite.replace_prefix {
        Some(rp) => if is_prefix_of(path_prefix, path) {
            let suffix = path.subrange(path_prefix.len() as int, path.len() as int);
            if rp@.len() > 0 && rp@.last() == '/' && suffix.len() > 0 && suffix.first() == '/' {
                rp@.drop_last() + suffix
            } else {
                rp@ + suffix
            }
        } else {
            path
        },
        None => path,
    }
}

/// The path a rewrite rule produces: the prefix replacement first, then
/// the global regex replacement when both its parts are set and the
/// pattern compiles.
pub open spec fn spec_apply_path_rewrite(
    path: Seq<char>,
    path_prefix: Seq<char>,
    rewrite: PathRewrite,
) -> Seq<char> {
    let stage1 = spec_prefix_rewritten(path, path_prefix, rewrite);
    match (rewrite.regex_match, rewrite.regex_replace) {
        (Some(m), Some(rr)) => match regex_replaced(m@, stage1, rr@) {
            Some(res) => res,
            None => stage1,
        },
        _ => stage1,
    }
}

/// Applies a route's path rewrite to `path` (normally the path together
/// with its query string).
pub fn apply_path_rewrite(path: &str, path_prefix: &str, rewrite: &PathRewrite) -> (r: String)
    ensures
        r@ == spec_apply_path_rewrite(path@, path_prefix@, *rewrite),
{
    let mut result: String = match &rewrite.replace_prefix {
        Some(rp) => {
            if str_starts_with(path, path_prefix) {
                let rest = tail_from(path, path_prefix.unicode_len());
                let rp_len = rp.as_str().unicode_len();
                let rest_len = rest.as_str().unicode_len();
                let mut s: String = if rp_len > 0 && rp.as_str().get_char(rp_len - 1) == '/'
                    && rest_len > 0 && rest.as_str().get_char(0) == '/' {
                    let trimmed = crate::text::head_to(rp.as_str(), rp_len - 1);
                    proof {
                        assert(trimmed@ =~= rp@.drop_last());
                    }
                    trimmed
                } else {
                    rp.clone()
                };
                s.append(rest.as_str());
                s
            } else {
                path.to_owned()
            }
        }
        None => path.to_owned(),
    };
    proof {
        assert(result@ == spec_prefix_rewritten(path@, path_prefix@, *rewrite));
    }
    match (&rewrite.regex_match, &rewrite.regex_replace) {
        (Some(m), Some(rr)) => {
            match regex_replace_all(m.as_str(), result.as_str(), rr.as_str()) {
                Some(replaced) => replaced,
                None => result,
            }
        }
        _ => result,
    }
}

/// The service family a path belongs to, for metric labels.
pub open spec fn spec_extract_service_type(path: Seq<char>) -> Seq<char> {
    if is_prefix_of("/api/auth"@, path) {
        "auth"@
    } else if is_prefix_of("/api/users"@, path) {
        "user"@
    } else if is_prefix_of("/api/friends"@, path) {
        "friend"@
    } else if is_prefix_of("/api/groups"@, path) {
        "group"@
    } else {
        "unknown"@
    }
}

/// Names the service family a path belongs to.
pub fn extract_service_type(path: &str) -> (r: &'static str)
    ensures
        r@ == spec_extract_service_type(path@),
{
    if str_starts_with(path, "/api/auth") {
        "auth"
    } else if str_starts_with(path, "/api/users") {
        "user"
    } else if str_starts_with(path, "/api/friends") {
        "friend"
    } else if str_starts_with(path, "/api/groups") {
        "group"
    } else {
        "unknown"
    }
}

/// Sets the `X-Trace-ID` and `X-Span-ID` headers; every other header
/// keeps its value.
pub fn add_tracing_headers(headers: &mut Vec<(String, String)>, trace_id: &str, span_id: &str)
    ensures
        spec_header_get(header_views(final(headers)@), "X-Trace-ID"@) == Some(trace_id@),
        spec_header_get(header_views(final(headers)@), "X-Span-ID"@) == Some(span_id@),
        forall|other: Seq<char>|
            other != "X-Trace-ID"@ && other != "X-Span-ID"@ ==> #[trigger] spec_header_get(
                header_views(final(headers)@),
                other,
            ) == spec_header_get(header_views(old(headers)@), other),
        final(headers)@.len() <= old(headers)@.len() + 2,
{
    proof {
        reveal_strlit("X-Trace-ID");
        reveal_strlit("X-Span-ID");
        assert("X-Trace-ID"@.len() != "X-Span-ID"@.len());
    }
    header_set(headers, "X-Trace-ID", trace_id);
    header_set(headers, "X-Span-ID", span_id);
}

/// `base` and `path` joined with exactly one slash at the seam.
pub open spec fn spec_join_url(base: Seq<char>, path: Seq<char>) -> Seq<char> {
    let base_slash = base.len() > 0 && base.last() == '/';
    let path_slash = path.len() > 0 && path.first() == '/';
    if base_slash && path_slash {
        base + path.drop_first()
    } else if !base_slash && !path_slash {
        base + "/"@ + path
    } else {
        base + path
    }
}

/// Joins a base URL and a path, avoiding doubled or missing slashes.
pub fn join_url(base: &str, path: &str) -> (r: String)
    ensures
        r@ == spec_join_url(base@, path@),
{
    proof {
        reveal_strlit("/");
    }
    let base_len = base.unicode_len();
    let path_len = path.unicode_len();
    let base_slash = base_len > 0 && base.get_char(base_len - 1) == '/';
    let path_slash = path_len > 0 && path.get_char(0) == '/';
    let mut r = base.to_owned();
    if base_slash && path_slash {
        let rest = tail_from(path, 1);
        r.append(rest.as_str());
        proof {
            assert(path@.drop_first() =~= path@.subrange(1, path@.len() as int));
        }
    } else if !base_slash && !path_slash {
        r.append("/");
        r.append(path);
    } else {
        r.append(path);
    }
    r
}

} // verus!
