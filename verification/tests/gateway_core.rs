//! Behavioural tests of the gateway's core state machines: breaker,
//! rate limiter, route matching, rewriting and configuration.

use api_gateway::circuit_breaker::{
    extract_service_id, is_failure_status, CircuitBreaker, CircuitBreakerMiddleware,
    CircuitBreakerState,
};
use api_gateway::config::rate_limit_config::{PathRateLimitRule, RateLimitConfig, RateLimitRule};
use api_gateway::config::routes_config::{PathRewrite, RouteRule, RoutesConfig, ServiceType};
use api_gateway::config::{ConfigHolder, GatewayConfig};
use api_gateway::error::Error;
use api_gateway::proxy::utils::{apply_path_rewrite, extract_service_type, join_url};
use api_gateway::rate_limit::{RateLimitLayer, TokenBucket};
use api_gateway::router::match_route;

fn route(id: &str, prefix: &str, service: ServiceType, rewrite: Option<PathRewrite>) -> RouteRule {
    RouteRule {
        id: id.to_string(),
        name: id.to_string(),
        path_prefix: prefix.to_string(),
        service_type: service,
        require_auth: false,
        methods: Vec::new(),
        rewrite_headers: Vec::new(),
        path_rewrite: rewrite,
    }
}

#[test]
fn breaker_opens_after_threshold_failures() {
    let mut b = CircuitBreaker::new("user-service", 5, 30);
    assert_eq!(b.state(), CircuitBreakerState::Closed);
    for i in 1..=4u64 {
        b.record_failure(100);
        assert_eq!(b.state(), CircuitBreakerState::Closed);
        assert_eq!(b.failure_count, i);
    }
    b.record_failure(100);
    assert_eq!(b.state(), CircuitBreakerState::Open);
    assert!(!b.check(101));
}

#[test]
fn breaker_success_resets_count_in_closed() {
    let mut b = CircuitBreaker::new("svc", 3, 10);
    b.record_failure(0);
    b.record_failure(0);
    assert_eq!(b.failure_count, 2);
    b.record_success();
    assert_eq!(b.failure_count, 0);
    assert_eq!(b.state(), CircuitBreakerState::Closed);
}

#[test]
fn breaker_half_opens_exactly_on_timeout() {
    let mut b = CircuitBreaker::new("svc", 1, 30);
    b.record_failure(100);
    assert_eq!(b.state(), CircuitBreakerState::Open);
    assert!(!b.check(129));
    assert_eq!(b.state(), CircuitBreakerState::Open);
    assert!(b.check(130));
    assert_eq!(b.state(), CircuitBreakerState::HalfOpen);
}

#[test]
fn breaker_recovers_or_reopens_from_half_open() {
    let mut b = CircuitBreaker::new("svc", 1, 30);
    b.record_failure(100);
    assert!(b.check(130));
    b.record_success();
    assert_eq!(b.state(), CircuitBreakerState::Closed);

    let mut b2 = CircuitBreaker::new("svc", 1, 30);
    b2.record_failure(100);
    assert!(b2.check(130));
    b2.record_failure(131);
    assert_eq!(b2.state(), CircuitBreakerState::Open);
    assert!(!b2.check(160));
    assert!(b2.check(161));
}

#[test]
fn breaker_table_creates_lazily_and_tracks_per_service() {
    let mut table = CircuitBreakerMiddleware::new(2, 30);
    assert!(table.check_service("a", 0));
    table.record_failure("a", 0);
    table.record_failure("a", 0);
    assert!(!table.check_service("a", 10));
    assert!(table.check_service("b", 10));
    table.record_success("b");
    assert!(table.check_service("a", 30));
}

#[test]
fn failure_status_classification() {
    assert!(is_failure_status(500));
    assert!(is_failure_status(503));
    assert!(is_failure_status(599));
    assert!(!is_failure_status(200));
    assert!(!is_failure_status(404));
    assert!(!is_failure_status(429));
}

#[test]
fn service_id_from_header_or_path() {
    let header = String::from("billing");
    assert_eq!(extract_service_id(Some(&header), "/api/users/1"), "billing");
    assert_eq!(extract_service_id(None, "/api/auth/login"), "auth-service");
    assert_eq!(extract_service_id(None, "/api/users/1"), "user-service");
    assert_eq!(extract_service_id(None, "/api/friends"), "friend-service");
    assert_eq!(extract_service_id(None, "/api/groups/9"), "group-service");
    assert_eq!(extract_service_id(None, "/other"), "unknown-service");
}

#[test]
fn token_bucket_burst_then_denial_with_retry_after() {
    // the login rule: five per second, burst three
    let mut config = RateLimitConfig::default();
    config.global = RateLimitRule { requests_per_second: 1000, burst_size: 50, enabled: true };
    let mut limiter = RateLimitLayer::new(&config, 0);
    let mut allowed = 0;
    let mut denied_retry = 0;
    for i in 0..4u64 {
        let d = limiter.check("/api/auth/login", "10.1.1.1", None, i * 30);
        if d.allowed {
            allowed += 1;
        } else {
            denied_retry = d.retry_after_secs;
        }
    }
    assert_eq!(allowed, 3);
    assert_eq!(denied_retry, 1);
}

#[test]
fn token_bucket_conservation_over_a_burst() {
    // capacity 3, rate 5/s: over 2 seconds at most 3 + 10 requests pass
    let rule = RateLimitRule { requests_per_second: 5, burst_size: 3, enabled: true };
    let mut bucket = TokenBucket::new(&rule, 0);
    let mut allowed = 0;
    for i in 0..100u64 {
        let (ok, _) = bucket.try_acquire(i * 20);
        if ok {
            allowed += 1;
        }
    }
    assert!(allowed <= 3 + 10);
    assert!(allowed >= 10);
}

#[test]
fn token_bucket_refills_up_to_capacity_only() {
    let rule = RateLimitRule { requests_per_second: 10, burst_size: 2, enabled: true };
    let mut bucket = TokenBucket::new(&rule, 0);
    assert!(bucket.try_acquire(0).0);
    assert!(bucket.try_acquire(0).0);
    assert!(!bucket.try_acquire(0).0);
    // a long idle period refills to the burst size, not beyond
    assert!(bucket.try_acquire(1_000_000).0);
    assert!(bucket.try_acquire(1_000_000).0);
    assert!(!bucket.try_acquire(1_000_000).0);
}

#[test]
fn ip_limiter_applies_per_address() {
    let mut config = RateLimitConfig::default();
    config.path_rules = Vec::new();
    config.ip_rules = vec![(
        "1.2.3.4".to_string(),
        RateLimitRule { requests_per_second: 1, burst_size: 1, enabled: true },
    )];
    let mut limiter = RateLimitLayer::new(&config, 0);
    assert!(limiter.check("/x", "1.2.3.4", None, 0).allowed);
    assert!(!limiter.check("/x", "1.2.3.4", None, 1).allowed);
    assert!(limiter.check("/x", "5.6.7.8", None, 2).allowed);
}

#[test]
fn longest_prefix_wins_regardless_of_order() {
    let a = route("short", "/api", ServiceType::Auth, None);
    let b = route("long", "/api/users", ServiceType::User, None);
    let routes1 = vec![a.clone(), b.clone()];
    let routes2 = vec![b, a];
    let m1 = match_route(&routes1, "/api/users/42").map(|i| routes1[i].id.clone());
    let m2 = match_route(&routes2, "/api/users/42").map(|i| routes2[i].id.clone());
    assert_eq!(m1, Some("long".to_string()));
    assert_eq!(m1, m2);
}

#[test]
fn declaration_order_breaks_ties() {
    let a = route("first", "/api", ServiceType::Auth, None);
    let b = route("second", "/api", ServiceType::User, None);
    let routes = vec![a, b];
    let m = match_route(&routes, "/api/x").map(|i| routes[i].id.clone());
    assert_eq!(m, Some("first".to_string()));
}

#[test]
fn no_route_matches_unknown_path() {
    let routes = RoutesConfig::default().routes;
    assert!(match_route(&routes, "/nothing/here").is_none());
}

#[test]
fn prefix_rewrite_strips_route_prefix() {
    let rewrite = PathRewrite {
        replace_prefix: Some("/".to_string()),
        regex_match: None,
        regex_replace: None,
    };
    let out = apply_path_rewrite("/api/auth/ping?x=1", "/api/auth", &rewrite);
    assert_eq!(out, "/ping?x=1");
}

#[test]
fn regex_rewrite_applies_globally() {
    let rewrite = PathRewrite {
        replace_prefix: None,
        regex_match: Some("v1".to_string()),
        regex_replace: Some("v2".to_string()),
    };
    let out = apply_path_rewrite("/v1/users/v1", "/ignored", &rewrite);
    assert_eq!(out, "/v2/users/v2");
}

#[test]
fn bad_regex_leaves_path_alone() {
    let rewrite = PathRewrite {
        replace_prefix: None,
        regex_match: Some("(".to_string()),
        regex_replace: Some("x".to_string()),
    };
    let out = apply_path_rewrite("/v1/users", "/v1", &rewrite);
    assert_eq!(out, "/v1/users");
}

#[test]
fn service_type_labels() {
    assert_eq!(extract_service_type("/api/auth/login"), "auth");
    assert_eq!(extract_service_type("/api/users/1"), "user");
    assert_eq!(extract_service_type("/api/friends"), "friend");
    assert_eq!(extract_service_type("/api/groups"), "group");
    assert_eq!(extract_service_type("/metrics"), "unknown");
}

#[test]
fn join_url_seams() {
    assert_eq!(join_url("http://a/", "/b"), "http://a/b");
    assert_eq!(join_url("http://a", "b"), "http://a/b");
    assert_eq!(join_url("http://a/", "b"), "http://a/b");
    assert_eq!(join_url("http://a", "/b"), "http://a/b");
}

#[test]
fn config_defaults_match_the_stock_gateway() {
    let c = GatewayConfig::default();
    assert_eq!(c.consul_url, "http://localhost:8500");
    assert_eq!(c.service_refresh_interval, 30);
    assert_eq!(c.metrics_endpoint, "/metrics");
    assert_eq!(c.retry.max_retries, 3);
    assert_eq!(c.retry.retry_interval_ms, 200);
    assert!(c.circuit_breaker.enabled);
    assert_eq!(c.circuit_breaker.failure_threshold, 5);
    assert_eq!(c.circuit_breaker.half_open_timeout_secs, 30);
    assert_eq!(c.routes.routes.len(), 5);
    assert_eq!(c.routes.routes[0].path_prefix, "/api/auth");
    assert!(!c.routes.routes[0].require_auth);
    assert!(c.routes.routes[1].require_auth);
    assert_eq!(c.rate_limit.path_rules.len(), 3);
    assert_eq!(c.rate_limit.path_rules[0].path_prefix, "/api/auth/login");
    assert_eq!(c.rate_limit.path_rules[0].rule.requests_per_second, 5);
    assert_eq!(c.rate_limit.path_rules[0].rule.burst_size, 3);
    assert!(c.auth.jwt.enabled);
    assert_eq!(c.auth.jwt.header_name, "Authorization");
    assert_eq!(c.auth.jwt.header_prefix, "Bearer ");
    assert_eq!(c.auth.path_whitelist[1], "/api/auth/login");
}

#[test]
fn reload_swaps_whole_snapshot_and_keeps_old_on_bad_candidate() {
    let mut holder = ConfigHolder::new();
    let generation0 = holder.generation;
    let mut candidate = GatewayConfig::default();
    candidate.consul_url = "http://registry:8500".to_string();
    candidate.routes.routes = vec![route("only", "/only", ServiceType::User, None)];
    assert!(holder.reload(candidate));
    assert_eq!(holder.generation, generation0 + 1);
    assert_eq!(holder.current().consul_url, "http://registry:8500");
    assert_eq!(holder.current().routes.routes.len(), 1);

    // an inconsistent candidate (empty route prefix) is rejected whole
    let mut bad = GatewayConfig::default();
    bad.routes.routes = vec![route("bad", "", ServiceType::User, None)];
    bad.consul_url = "http://other:1".to_string();
    assert!(!holder.reload(bad));
    assert_eq!(holder.current().consul_url, "http://registry:8500");
    assert_eq!(holder.current().routes.routes.len(), 1);
    assert_eq!(holder.generation, generation0 + 1);
}

#[test]
fn error_statuses_follow_the_table() {
    assert_eq!(Error::Internal("x".to_string()).status_code(), 500);
    assert_eq!(Error::Unauthorized.status_code(), 401);
    assert_eq!(Error::TokenExpired.status_code(), 401);
    assert_eq!(Error::InvalidToken.status_code(), 401);
    assert_eq!(Error::InvalidIssuer.status_code(), 401);
    assert_eq!(Error::InsufficientPermissions.status_code(), 403);
    assert_eq!(Error::InvalidApiKey.status_code(), 401);
    assert_eq!(Error::ApiKeyExpired.status_code(), 401);
    assert_eq!(Error::OAuth2Error("x".to_string()).status_code(), 401);
    assert_eq!(Error::NotFound("x".to_string()).status_code(), 404);
    assert_eq!(Error::BadRequest("x".to_string()).status_code(), 400);
    assert_eq!(Error::MethodNotAllowed.status_code(), 405);
    assert_eq!(Error::RequestTooLarge.status_code(), 413);
    assert_eq!(Error::RateLimited(1).status_code(), 429);
    assert_eq!(Error::BadGateway("x".to_string()).status_code(), 502);
    assert_eq!(Error::ServiceUnavailable("x".to_string()).status_code(), 503);
    assert_eq!(Error::GatewayTimeout.status_code(), 504);
}

#[test]
fn path_rule_with_longer_prefix_wins_in_limiter() {
    let config = RateLimitConfig {
        global: RateLimitRule { requests_per_second: 1000, burst_size: 1000, enabled: true },
        path_rules: vec![
            PathRateLimitRule {
                path_prefix: "/api".to_string(),
                rule: RateLimitRule { requests_per_second: 100, burst_size: 100, enabled: true },
            },
            PathRateLimitRule {
                path_prefix: "/api/auth/login".to_string(),
                rule: RateLimitRule { requests_per_second: 1, burst_size: 1, enabled: true },
            },
        ],
        api_key_rules: Vec::new(),
        ip_rules: Vec::new(),
    };
    let mut limiter = RateLimitLayer::new(&config, 0);
    assert!(limiter.check("/api/auth/login", "ip", None, 0).allowed);
    // the tight bucket on the longer prefix is exhausted
    assert!(!limiter.check("/api/auth/login", "ip", None, 1).allowed);
    // the shorter prefix still admits
    assert!(limiter.check("/api/other", "ip", None, 2).allowed);
}

#[test]
fn duplicate_path_rule_prefixes_use_the_later_rule() {
    let config = RateLimitConfig {
        global: RateLimitRule { requests_per_second: 1000, burst_size: 1000, enabled: true },
        path_rules: vec![
            PathRateLimitRule {
                path_prefix: "/api".to_string(),
                rule: RateLimitRule { requests_per_second: 100, burst_size: 100, enabled: true },
            },
            PathRateLimitRule {
                path_prefix: "/api".to_string(),
                rule: RateLimitRule { requests_per_second: 1, burst_size: 1, enabled: true },
            },
        ],
        api_key_rules: Vec::new(),
        ip_rules: Vec::new(),
    };
    let mut limiter = RateLimitLayer::new(&config, 0);
    assert!(limiter.check("/api/x", "ip", None, 0).allowed);
    // the later, tighter rule governs the shared prefix
    assert!(!limiter.check("/api/x", "ip", None, 1).allowed);
}

#[test]
fn empty_route_table_matches_nothing() {
    let routes: Vec<RouteRule> = Vec::new();
    assert!(match_route(&routes, "/api/users").is_none());
}

#[test]
fn first_seen_ip_gets_a_default_bucket_that_persists() {
    let mut config = RateLimitConfig::default();
    config.path_rules = Vec::new();
    // a tight global rule doubles as the per-IP default
    config.global = RateLimitRule { requests_per_second: 1, burst_size: 1, enabled: true };
    let mut limiter = RateLimitLayer::new(&config, 0);
    // the global bucket admits once; disable it from the picture by
    // checking two different IPs in the same instant
    let first = limiter.check("/x", "7.7.7.7", None, 0);
    assert!(!first.allowed || first.retry_after_secs == 0);
    // the lazily created bucket for this IP is now charged: a second
    // request from the same IP inside the refill window is denied by it
    let second = limiter.check("/x", "7.7.7.7", None, 1);
    assert!(!second.allowed);
}
