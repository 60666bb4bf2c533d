//! The gateway configuration: an immutable snapshot per generation,
//! held by a holder that swaps snapshots whole on reload.

pub mod auth_config;
pub mod rate_limit_config;
pub mod routes_config;

use vstd::prelude::*;
use self::auth_config::AuthConfig;
use self::rate_limit_config::RateLimitConfig;
use self::routes_config::RoutesConfig;

verus! {

/// One generation of the gateway's configuration.
#[derive(Debug, Clone)]
pub struct GatewayConfig {
    /// The route table.
    pub routes: RoutesConfig,
    /// Rate-limit rules.
    pub rate_limit: RateLimitConfig,
    /// Authentication settings.
    pub auth: AuthConfig,
    /// Base URL of the service registry.
    pub consul_url: String,
    /// Seconds between background discovery refreshes.
    pub service_refresh_interval: u64,
    /// Path on which metrics are served.
    pub metrics_endpoint: String,
    /// Trace settings.
    pub tracing: TracingConfig,
    /// Proxy retry settings.
    pub retry: RetryConfig,
    /// Circuit-breaker settings.
    pub circuit_breaker: CircuitBreakerConfig,
}

/// Trace propagation settings.  The sampling ratio is a fraction and
/// lives with the exporter outside this crate.
#[derive(Debug, Clone)]
pub struct TracingConfig {
    /// Whether OpenTelemetry export is on.
    pub enable_opentelemetry: bool,
    /// Jaeger collector endpoint, when exporting.
    pub jaeger_endpoint: Option<String>,
}

/// Proxy retry settings.
#[derive(Debug, Clone)]
pub struct RetryConfig {
    /// Retries after the first attempt.
    pub max_retries: usize,
    /// Milliseconds between attempts.
    pub retry_interval_ms: u64,
}

/// Circuit-breaker settings shared by all breakers.
#[derive(Debug, Clone)]
pub struct CircuitBreakerConfig {
    /// Whether breaking is on at all.
    pub enabled: bool,
    /// Failures in `Closed` at which a breaker opens.
    pub failure_threshold: u64,
    /// Seconds an open breaker waits before allowing a probe.
    pub half_open_timeout_secs: u64,
}

impl GatewayConfig {
    /// A snapshot is consistent when its route rules are well-formed,
    /// its enabled rate rules are usable, and the breaker threshold is
    /// positive.
    pub open spec fn wf(self) -> bool {
        &&& forall|i: int|
            0 <= i < self.routes.routes@.len() ==> (#[trigger] self.routes.routes@[i]).wf()
        &&& self.rate_limit.wf()
        &&& self.circuit_breaker.failure_threshold >= 1
    }

    /// Run-time check of `wf`, for snapshots parsed from a file.
    pub fn is_well_formed(&self) -> (r: bool)
        ensures
            r == self.wf(),
    {
        if self.circuit_breaker.failure_threshold < 1 {
            return false;
        }
        if !self.rate_limit.is_well_formed() {
            return false;
        }
        let mut i: usize = 0;
        while i < self.routes.routes.len()
            invariant
                0 <= i <= self.routes.routes@.len(),
                self.rate_limit.wf(),
                self.circuit_breaker.failure_threshold >= 1,
                forall|j: int| 0 <= j < i ==> (#[trigger] self.routes.routes@[j]).wf(),
            decreases self.routes.routes@.len() - i,
        {
            let rule = &self.routes.routes[i];
            let pfx = rule.path_prefix.as_str();
            if pfx.unicode_len() == 0 {
                return false;
            }
            if pfx.get_char(0) != '/' {
                return false;
            }
            i += 1;
        }
        true
    }
}

impl Default for GatewayConfig {
    /// The stock configuration used before any file is loaded.
    fn default() -> (r: Self)
        ensures
            r.wf(),
            r.consul_url@ == "http://localhost:8500"@,
            r.service_refresh_interval == 30,
            r.metrics_endpoint@ == "/metrics"@,
            r.retry.max_retries == 3,
            r.retry.retry_interval_ms == 200,
            r.circuit_breaker.enabled,
            r.circuit_breaker.failure_threshold == 5,
            r.circuit_breaker.half_open_timeout_secs == 30,
            r.routes.routes@.len() == 5,
            r.rate_limit.global.requests_per_second == 1000,
            r.rate_limit.path_rules@.len() == 3,
            r.auth.jwt.enabled,
            !r.auth.api_key.enabled,
            !r.auth.oauth2.enabled,
    {
        proof {
            reveal_strlit("http://localhost:8500");
            reveal_strlit("/metrics");
        }
        let routes = RoutesConfig::default();
        let rate_limit = RateLimitConfig::default();
        let auth = AuthConfig::default();
        GatewayConfig {
            routes,
            rate_limit,
            auth,
            consul_url: "http://localhost:8500".to_owned(),
            service_refresh_interval: 30,
            metrics_endpoint: "/metrics".to_owned(),
            tracing: TracingConfig { enable_opentelemetry: false, jaeger_endpoint: None },
            retry: RetryConfig { max_retries: 3, retry_interval_ms: 200 },
            circuit_breaker: CircuitBreakerConfig {
                enabled: true,
                failure_threshold: 5,
                half_open_timeout_secs: 30,
            },
        }
    }
}

/// Holds the current configuration snapshot.  Readers take the whole
/// snapshot; a reload validates the candidate and then replaces the
/// snapshot whole, so no reader ever sees fields of two generations.
pub struct ConfigHolder {
    /// The live snapshot.
    pub current: GatewayConfig,
    /// Counts successful reloads.
    pub generation: u64,
}

impl ConfigHolder {
    /// The holder always holds a consistent snapshot.
    pub open spec fn wf(self) -> bool {
        self.current.wf()
    }

    /// Starts from the stock configuration.
    pub fn new() -> (r: Self)
        ensures
            r.wf(),
            r.generation == 0,
    {
        ConfigHolder { current: GatewayConfig::default(), generation: 0 }
    }

    /// The current snapshot, whole.
    pub fn current(&self) -> (r: &GatewayConfig)
        ensures
            r == self.current,
    {
        &self.current
    }

    /// Installs `candidate` if it is consistent; a rejected candidate
    /// leaves the previous snapshot fully intact.  Returns whether the
    /// swap happened.
    pub fn reload(&mut self, candidate: GatewayConfig) -> (swapped: bool)
        requires
            old(self).wf(),
        ensures
            final(self).wf(),
            swapped == candidate.wf(),
            swapped ==> final(self).current == candidate && final(self).generation == (
            if old(self).generation == u64::MAX {
                old(self).generation as int
            } else {
                old(self).generation + 1
            }),
            !swapped ==> *final(self) == *old(self),
    {
        if candidate.is_well_formed() {
            self.current = candidate;
            if self.generation < u64::MAX {
                self.generation = self.generation + 1;
            }
            true
        } else {
            false
        }
    }
}

/// The snapshot a holder ends with after offering it a sequence of
/// reload candidates in order.
pub open spec fn after_reloads(start: GatewayConfig, candidates: Seq<GatewayConfig>) -> GatewayConfig
    decreases candidates.len(),
{
    if candidates.len() == 0 {
        start
    } else {
        let next = if candidates[0].wf() {
            candidates[0]
        } else {
            start
        };
        after_reloads(next, candidates.drop_first())
    }
}

/// Reloads are atomic: after any sequence of reloads, the snapshot a
/// reader observes is the starting snapshot or one of the candidates,
/// whole — never a mixture of fields from two generations.
pub proof fn lemma_reload_atomicity(start: GatewayConfig, candidates: Seq<GatewayConfig>)
    ensures
        after_reloads(start, candidates) == start || exists|i: int|
            0 <= i < candidates.len() && after_reloads(start, candidates) == candidates[i],
    decreases candidates.len(),
{
    if candidates.len() == 0 {
    } else {
        let next = if candidates[0].wf() {
            candidates[0]
        } else {
            start
        };
        lemma_reload_atomicity(next, candidates.drop_first());
        let end = after_reloads(start, candidates);
        if end == next {
            if candidates[0].wf() {
                assert(0 <= 0 < candidates.len() && end == candidates[0]);
            }
        } else {
            let i = choose|i: int|
                0 <= i < candidates.drop_first().len() && after_reloads(
                    next,
                    candidates.drop_first(),
                ) == candidates.drop_first()[i];
            assert(candidates.drop_first()[i] == candidates[i + 1]);
            assert(0 <= i + 1 < candidates.len() && end == candidates[i + 1]);
        }
    }
}

} // verus!
