//! Trace propagation: reading the W3C `traceparent` header carried by
//! an inbound request, so the upstream call can continue the trace.

use vstd::prelude::*;
use crate::headers::{header_get, header_views, spec_header_get};
use crate::text::{split_on, split_string};

verus! {

/// The trace and parent-span ids in a `traceparent` value, which has
/// the shape `version-traceid-parentid-flags`: the second and third of
/// exactly four dash-separated fields.
pub open spec fn spec_trace_context(value: Seq<char>) -> Option<(Seq<char>, Seq<char>)> {
    let parts = split_on(value, '-');
    if parts.len() == 4 {
        Some((parts[1], parts[2]))
    } else {
        None
    }
}

/// Reads the inbound trace context from the `traceparent` header.
pub fn extract_trace_context(headers: &Vec<(String, String)>) -> (r: Option<(String, String)>)
    ensures
        match spec_header_get(header_views(headers@), "traceparent"@) {
            Some(v) => match spec_trace_context(v) {
                Some(ctx) => r matches Some(ids) && ids.0@ == ctx.0 && ids.1@ == ctx.1,
                None => r is None,
            },
            None => r is None,
        },
{
    let value = match header_get(headers, "traceparent") {
        Some(v) => v,
        None => {
            return None;
        }
    };
    let parts = split_string(value.as_str(), '-');
    if parts.len() == 4 {
        let trace_id = parts[1].clone();
        let span_id = parts[2].clone();
        proof {
            let views = parts@.map_values(|p: String| p@);
            assert(trace_id@ == views[1] && span_id@ == views[2]);
        }
        Some((trace_id, span_id))
    } else {
        None
    }
}

} // verus!
