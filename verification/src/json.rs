//! Trusted access to `serde_json::Value`.  A value of that type is
//! opaque here: these wrappers carry values through to plain strings
//! and numbers, and the verified callers do the rest.

use vstd::prelude::*;

verus! {

/// Declares `serde_json::Value` so it can appear in signatures.
#[verifier::external_type_specification]
#[verifier::external_body]
pub struct ExValue(serde_json::Value);

/// Relies on serde_json::Value::get: the member of a JSON object under
/// a key, when the value is an object holding that key.
#[verifier::external_body]
pub fn json_get<'a>(v: &'a serde_json::Value, key: &str) -> (r: Option<&'a serde_json::Value>) {
    v.get(key)
}

/// Relies on serde_json::Value::as_str: the contents of a JSON string,
/// when the value is one.
#[verifier::external_body]
pub fn json_as_string(v: &serde_json::Value) -> (r: Option<String>) {
    match v.as_str() {
        Some(s) => Some(s.to_string()),
        None => None,
    }
}

/// Relies on serde_json::Value::as_u64: the value of a JSON number,
/// when the value is a non-negative integer that fits.
#[verifier::external_body]
pub fn json_as_u64(v: &serde_json::Value) -> (r: Option<u64>) {
    v.as_u64()
}

/// Relies on serde_json::Value::as_array: the elements of a JSON
/// array, when the value is one.
#[verifier::external_body]
pub fn json_as_array(v: &serde_json::Value) -> (r: Option<Vec<serde_json::Value>>) {
    match v.as_array() {
        Some(a) => Some(a.to_vec()),
        None => None,
    }
}

/// Reads a member's string contents: `get` then `as_str`.
pub fn json_get_string(v: &serde_json::Value, key: &str) -> (r: Option<String>) {
    match json_get(v, key) {
        Some(m) => json_as_string(m),
        None => None,
    }
}

/// Reads a member's unsigned value: `get` then `as_u64`.
pub fn json_get_u64(v: &serde_json::Value, key: &str) -> (r: Option<u64>) {
    match json_get(v, key) {
        Some(m) => json_as_u64(m),
        None => None,
    }
}

/// Reads a value that must be an array of strings; `None` when it is
/// not an array or holds a non-string element.
pub fn json_string_array(v: &serde_json::Value) -> (r: Option<Vec<String>>) {
    match json_as_array(v) {
        Some(items) => {
            let mut out: Vec<String> = Vec::new();
            let mut i: usize = 0;
            while i < items.len()
                decreases items@.len() - i,
            {
                match json_as_string(&items[i]) {
                    Some(s) => {
                        out.push(s);
                    }
                    None => {
                        return None;
                    }
                }
                i += 1;
            }
            Some(out)
        }
        None => None,
    }
}

/// Reads a value that may be an array with string elements among
/// others: the string elements, in order, anything else skipped;
/// `None` when the value is not an array at all.
pub fn json_string_elements(v: &serde_json::Value) -> (r: Option<Vec<String>>) {
    match json_as_array(v) {
        Some(items) => {
            let mut out: Vec<String> = Vec::new();
            let mut i: usize = 0;
            while i < items.len()
                decreases items@.len() - i,
            {
                match json_as_string(&items[i]) {
                    Some(s) => {
                        out.push(s);
                    }
                    None => {}
                }
                i += 1;
            }
            Some(out)
        }
        None => None,
    }
}

} // verus!
