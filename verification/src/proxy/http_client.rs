//! Policy around the upstream HTTP client: timeouts, and which
//! failures justify another attempt.

use vstd::prelude::*;
use crate::text::str_eq;

verus! {

/// Settings of the upstream HTTP client.
#[derive(Debug, Clone)]
pub struct HttpClientConfig {
    /// Seconds to wait for a connection.
    pub connect_timeout: u64,
    /// Seconds to wait for a whole request.
    pub timeout: u64,
    /// Attempts after the first.
    pub max_retries: u32,
    /// Milliseconds between attempts.
    pub retry_interval: u64,
    /// Whether compressed bodies are requested.
    pub enable_gzip: bool,
    /// Whether trace headers are added to upstream calls.
    pub add_tracing_headers: bool,
}

impl Default for HttpClientConfig {
    /// The stock client settings.
    fn default() -> (r: Self)
        ensures
            r.connect_timeout == 5,
            r.timeout == 30,
            r.max_retries == 3,
            r.retry_interval == 100,
            r.enable_gzip,
            r.add_tracing_headers,
    {
        HttpClientConfig {
            connect_timeout: 5,
            timeout: 30,
            max_retries: 3,
            retry_interval: 100,
            enable_gzip: true,
            add_tracing_headers: true,
        }
    }
}

/// How an upstream attempt failed at the transport level.
#[derive(Debug, Clone, Copy, PartialEq, Eq, Structural)]
pub enum TransportErrorKind {
    /// The attempt timed out.
    Timeout,
    /// The connection could not be established.
    Connect,
    /// The connection was reset during the request phase.
    ConnectionReset,
    /// Any other transport failure.
    Other,
}

/// Whether a response status makes another attempt worthwhile: the
/// server errors and the rate-limit status.
pub open spec fn spec_is_retryable_status(status: u16) -> bool {
    status == 500 || status == 502 || status == 503 || status == 504 || status == 429
}

/// Whether a response status makes another attempt worthwhile.
pub fn is_retryable_status(status: u16) -> (r: bool)
    ensures
        r == spec_is_retryable_status(status),
{
    status == 500 || status == 502 || status == 503 || status == 504 || status == 429
}

/// Whether a transport failure makes another attempt worthwhile:
/// timeouts, refused connections and resets during the request phase.
pub open spec fn spec_is_retryable_error(kind: TransportErrorKind) -> bool {
    kind == TransportErrorKind::Timeout || kind == TransportErrorKind::Connect || kind
        == TransportErrorKind::ConnectionReset
}

/// Whether a transport failure makes another attempt worthwhile.
pub fn is_retryable_error(kind: TransportErrorKind) -> (r: bool)
    ensures
        r == spec_is_retryable_error(kind),
{
    match kind {
        TransportErrorKind::Timeout => true,
        TransportErrorKind::Connect => true,
        TransportErrorKind::ConnectionReset => true,
        TransportErrorKind::Other => false,
    }
}

/// Whether a method may be re-sent after a transport failure: the
/// non-idempotent methods `POST` and `PATCH` are never retried.
pub open spec fn spec_method_retryable(method: Seq<char>) -> bool {
    method != "POST"@ && method != "PATCH"@
}

/// Whether one more attempt should be made after a transport failure
/// on `method`, with `attempts_made` attempts already sent out of
/// `1 + max_retries` permitted.
pub open spec fn spec_should_retry(
    method: Seq<char>,
    kind: TransportErrorKind,
    attempts_made: u32,
    max_retries: u32,
) -> bool {
    &&& spec_is_retryable_error(kind)
    &&& spec_method_retryable(method)
    &&& attempts_made <= max_retries
}

/// Decides whether the proxy sends the request once more after a
/// transport failure.
pub fn should_retry(
    method: &str,
    kind: TransportErrorKind,
    attempts_made: u32,
    max_retries: u32,
) -> (r: bool)
    ensures
        r == spec_should_retry(method@, kind, attempts_made, max_retries),
{
    is_retryable_error(kind) && !str_eq(method, "POST") && !str_eq(method, "PATCH")
        && attempts_made <= max_retries
}

} // verus!
