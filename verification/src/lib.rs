//! Verified core of an API gateway's request plane.
//!
//! The crate models the pipeline that turns an inbound request into a
//! proxied one: authentication, rate limiting, circuit breaking, route
//! matching and proxy planning, together with the configuration snapshots
//! and the service-discovery cache that those stages share.  Network and
//! file I/O stay outside; the logic here works on plain values and is
//! verified against the contracts written on each function.

pub mod auth;
pub mod circuit_breaker;
pub mod config;
pub mod error;
pub mod headers;
pub mod json;
pub mod json_text;
pub mod metrics;
pub mod models;
pub mod proxy;
pub mod rate_limit;
pub mod router;
pub mod settings;
pub mod text;
pub mod trace;
