//! gRPC upstream settings.  Forwarding itself is opaque to the gateway
//! and answered with 501 by the surrounding binary; only the settings
//! and the factory shell live here.

use vstd::prelude::*;

verus! {

/// Settings for gRPC upstream channels.
#[derive(Debug, Clone)]
pub struct GrpcClientConfig {
    /// Seconds to wait for a connection.
    pub connect_timeout_secs: u64,
    /// Seconds to wait for a whole call.
    pub timeout_secs: u64,
    /// Concurrent calls permitted on one channel.
    pub concurrency_limit: usize,
    /// Whether load balancing across endpoints is requested.
    pub enable_load_balancing: bool,
}

impl Default for GrpcClientConfig {
    /// The stock channel settings.
    fn default() -> (r: Self)
        ensures
            r.connect_timeout_secs == 5,
            r.timeout_secs == 30,
            r.concurrency_limit == 100,
            r.enable_load_balancing,
    {
        GrpcClientConfig {
            connect_timeout_secs: 5,
            timeout_secs: 30,
            concurrency_limit: 100,
            enable_load_balancing: true,
        }
    }
}

/// The generic factory for gRPC forwarding.  Protocol-specific clients
/// would hang off this; the baseline build forwards nothing.
pub struct GenericGrpcClientFactory;

impl GenericGrpcClientFactory {
    /// Creates the factory.
    pub fn new() -> (r: Self) {
        GenericGrpcClientFactory
    }
}

} // verus!
