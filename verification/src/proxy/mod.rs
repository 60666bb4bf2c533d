//! The proxy stage: service discovery, request planning, and the retry
//! and failure classification rules around the upstream call.

pub mod grpc_client;
pub mod http_client;
pub mod service_proxy;
pub mod utils;
