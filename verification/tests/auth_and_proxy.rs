//! Behavioural tests of authentication, proxy planning, discovery,
//! metrics and the text helpers, with the real outside crates linked.

use api_gateway::auth::api_key::authenticate_api_key;
use api_gateway::auth::authenticate;
use api_gateway::auth::error::AuthError;
use api_gateway::auth::get_client_ip;
use api_gateway::auth::jwt::{verify_token, Claims, UserInfo};
use api_gateway::auth::middleware::{authorize, has_required_roles};
use api_gateway::auth::oauth2::{authenticate_oauth2, extract_oauth_token, userinfo_principal};
use api_gateway::config::auth_config::{ApiKeyConfig, ApiKeyInfo, AuthConfig};
use api_gateway::config::routes_config::RoutesConfig;
use api_gateway::error::Error;
use api_gateway::headers::{header_get, header_set};
use api_gateway::metrics::{extract_service_name, init_metrics};
use api_gateway::proxy::http_client::{
    is_retryable_error, is_retryable_status, should_retry, HttpClientConfig, TransportErrorKind,
};
use api_gateway::proxy::service_proxy::{
    get_service_name, health_service_url, instance_urls, make_service_id, plan_http_forward,
    CatalogInstance, ServiceDiscovery,
};
use api_gateway::config::rate_limit_config::{RateLimitConfig, RateLimitRule};
use api_gateway::config::routes_config::ServiceType;
use api_gateway::rate_limit::RateLimitLayer;
use api_gateway::text::{i64_to_string, parse_i64, split_string, trim_spaces, u64_to_string};
use api_gateway::trace::extract_trace_context;

fn headers(pairs: &[(&str, &str)]) -> Vec<(String, String)> {
    pairs.iter().map(|(n, v)| (n.to_string(), v.to_string())).collect()
}

fn make_token(secret: &[u8], claims: serde_json::Map<String, serde_json::Value>) -> String {
    jsonwebtoken::encode(
        &jsonwebtoken::Header::default(),
        &serde_json::Value::Object(claims),
        &jsonwebtoken::EncodingKey::from_secret(secret),
    )
    .expect("token signed")
}

fn standard_claims(now: u64) -> serde_json::Map<String, serde_json::Value> {
    let mut claims = serde_json::Map::new();
    claims.insert("sub".to_string(), serde_json::Value::String("100".to_string()));
    claims.insert("exp".to_string(), serde_json::Value::from(now + 3600));
    claims.insert("iat".to_string(), serde_json::Value::from(now));
    claims.insert("username".to_string(), serde_json::Value::String("alice".to_string()));
    claims.insert(
        "roles".to_string(),
        serde_json::Value::Array(vec![serde_json::Value::String("user".to_string())]),
    );
    claims
}

fn header_value(headers: &Vec<(String, String)>, name: &str) -> Option<String> {
    header_get(headers, name)
}

#[test]
fn jwt_happy_path_reaches_upstream_with_principal_headers() {
    let now = 1_700_000_000u64;
    let token = make_token(b"s3cret", standard_claims(now));

    let mut config = AuthConfig::default();
    config.jwt.secret = "s3cret".to_string();
    config.path_whitelist = Vec::new();
    config.ip_whitelist = Vec::new();

    let auth_header = format!("Bearer {}", token);
    let request_headers = headers(&[("Authorization", auth_header.as_str()), ("host", "gw")]);
    let result = authenticate(&request_headers, "/api/users/42", None, None, &config, now);
    let user = result.expect("authenticated").expect("principal attached");
    assert_eq!(user.user_id, 100);
    assert_eq!(user.username, "alice");
    assert_eq!(user.roles, vec!["user".to_string()]);

    let routes = RoutesConfig::default().routes;
    let plan = plan_http_forward(
        "GET",
        "/api/users/42",
        "/api/users/42",
        &request_headers,
        Some(&user),
        &routes,
        "http://10.0.0.7:9001",
    )
    .expect("plan built");
    assert_eq!(plan.target_url, "http://10.0.0.7:9001/api/users/42");
    assert!(!plan.send_body);
    assert_eq!(header_value(&plan.headers, "X-User-ID").as_deref(), Some("100"));
    assert_eq!(header_value(&plan.headers, "X-Username").as_deref(), Some("alice"));
    assert_eq!(header_value(&plan.headers, "X-User-Roles").as_deref(), Some("user"));
    assert_eq!(header_value(&plan.headers, "X-Original-Path").as_deref(), Some("/api/users/42"));
    assert_eq!(header_value(&plan.headers, "X-Original-Method").as_deref(), Some("GET"));
    assert!(header_value(&plan.headers, "host").is_none());
}

#[test]
fn expired_token_is_token_expired() {
    let now = 1_700_000_000u64;
    let mut claims = standard_claims(now);
    claims.insert("exp".to_string(), serde_json::Value::from(now - 10));
    let token = make_token(b"s3cret", claims);
    let mut jwt = AuthConfig::default().jwt;
    jwt.secret = "s3cret".to_string();
    let r = verify_token(&token, &jwt, now);
    assert!(matches!(r, Err(Error::TokenExpired)));
}

#[test]
fn wrong_secret_is_invalid_token() {
    let now = 1_700_000_000u64;
    let token = make_token(b"other", standard_claims(now));
    let mut jwt = AuthConfig::default().jwt;
    jwt.secret = "s3cret".to_string();
    let r = verify_token(&token, &jwt, now);
    assert!(matches!(r, Err(Error::InvalidToken)));
}

#[test]
fn disallowed_issuer_is_invalid_issuer() {
    let now = 1_700_000_000u64;
    let mut claims = standard_claims(now);
    claims.insert("iss".to_string(), serde_json::Value::String("evil".to_string()));
    let token = make_token(b"s3cret", claims);
    let mut jwt = AuthConfig::default().jwt;
    jwt.secret = "s3cret".to_string();
    jwt.verify_issuer = true;
    jwt.allowed_issuers = vec!["api-gateway".to_string()];
    assert!(matches!(verify_token(&token, &jwt, now), Err(Error::InvalidIssuer)));

    let mut ok_claims = standard_claims(now);
    ok_claims.insert("iss".to_string(), serde_json::Value::String("api-gateway".to_string()));
    let ok_token = make_token(b"s3cret", ok_claims);
    assert!(verify_token(&ok_token, &jwt, now).is_ok());
}

#[test]
fn whitelisted_path_bypasses_auth_without_credentials() {
    let config = AuthConfig::default();
    let request_headers = headers(&[]);
    let r = authenticate(&request_headers, "/api/auth/login", None, None, &config, 0);
    assert!(matches!(r, Ok(None)));
}

#[test]
fn whitelisted_ip_bypasses_auth() {
    let mut config = AuthConfig::default();
    config.path_whitelist = Vec::new();
    let request_headers = headers(&[("X-Forwarded-For", " 127.0.0.1 , 10.0.0.2")]);
    let r = authenticate(&request_headers, "/api/users/1", None, None, &config, 0);
    assert!(matches!(r, Ok(None)));
}

#[test]
fn missing_token_is_unauthorized() {
    let mut config = AuthConfig::default();
    config.path_whitelist = Vec::new();
    config.ip_whitelist = Vec::new();
    let request_headers = headers(&[]);
    let r = authenticate(&request_headers, "/api/users/1", None, None, &config, 0);
    assert!(matches!(r, Err(Error::Unauthorized)));
}

#[test]
fn no_scheme_enabled_is_service_unavailable() {
    let mut config = AuthConfig::default();
    config.path_whitelist = Vec::new();
    config.ip_whitelist = Vec::new();
    config.jwt.enabled = false;
    let request_headers = headers(&[]);
    let r = authenticate(&request_headers, "/api/users/1", None, None, &config, 0);
    assert!(matches!(r, Err(Error::ServiceUnavailable(_))));
}

fn key_table() -> ApiKeyConfig {
    let mut config = ApiKeyConfig {
        enabled: true,
        header_name: "X-API-Key".to_string(),
        api_keys: Vec::new(),
    };
    config.api_keys.push((
        "good-key".to_string(),
        ApiKeyInfo {
            name: "robot".to_string(),
            user_id: Some(7),
            permissions: vec!["service".to_string()],
            enabled: true,
            expires_at: Some("2999-01-01T00:00:00Z".to_string()),
        },
    ));
    config.api_keys.push((
        "old-key".to_string(),
        ApiKeyInfo {
            name: "old".to_string(),
            user_id: Some(8),
            permissions: Vec::new(),
            enabled: true,
            expires_at: Some("2020-01-01T00:00:00Z".to_string()),
        },
    ));
    config.api_keys.push((
        "off-key".to_string(),
        ApiKeyInfo {
            name: "off".to_string(),
            user_id: Some(9),
            permissions: Vec::new(),
            enabled: false,
            expires_at: None,
        },
    ));
    config
}

#[test]
fn api_key_flow_accepts_and_rejects() {
    let config = key_table();
    let now = 1_700_000_000u64;

    let ok = authenticate_api_key(&headers(&[("X-API-Key", "good-key")]), &config, now);
    let user = ok.expect("accepted");
    assert_eq!(user.user_id, 7);
    assert_eq!(user.username, "robot");
    assert_eq!(user.roles, vec!["service".to_string()]);

    let expired = authenticate_api_key(&headers(&[("X-API-Key", "old-key")]), &config, now);
    assert!(matches!(expired, Err(Error::ApiKeyExpired)));

    let disabled = authenticate_api_key(&headers(&[("X-API-Key", "off-key")]), &config, now);
    assert!(matches!(disabled, Err(Error::InvalidApiKey)));

    let unknown = authenticate_api_key(&headers(&[("X-API-Key", "nope")]), &config, now);
    assert!(matches!(unknown, Err(Error::InvalidApiKey)));

    let missing = authenticate_api_key(&headers(&[]), &config, now);
    assert!(matches!(missing, Err(Error::InvalidApiKey)));
}

#[test]
fn api_key_bad_expiry_format_is_internal() {
    let mut config = key_table();
    config.api_keys[0].1.expires_at = Some("not-a-date".to_string());
    let r = authenticate_api_key(&headers(&[("X-API-Key", "good-key")]), &config, 0);
    assert!(matches!(r, Err(Error::Internal(_))));
}

#[test]
fn oauth_token_from_header_or_query() {
    let with_header = headers(&[("Authorization", "Bearer abc123")]);
    assert_eq!(extract_oauth_token(&with_header, None).as_deref(), Some("abc123"));

    let bare = headers(&[]);
    assert_eq!(
        extract_oauth_token(&bare, Some("a=1&access_token=xyz&b=2")).as_deref(),
        Some("xyz")
    );
    assert_eq!(extract_oauth_token(&bare, Some("a=1&b=2")), None);
    assert_eq!(extract_oauth_token(&bare, None), None);
}

#[test]
fn userinfo_maps_to_principal() {
    let mut obj = serde_json::Map::new();
    obj.insert("sub".to_string(), serde_json::Value::String("42".to_string()));
    obj.insert("name".to_string(), serde_json::Value::String("bob".to_string()));
    obj.insert("email".to_string(), serde_json::Value::String("bob@example.com".to_string()));
    obj.insert(
        "roles".to_string(),
        serde_json::Value::Array(vec![
            serde_json::Value::String("user".to_string()),
            serde_json::Value::String("ops".to_string()),
        ]),
    );
    let value = serde_json::Value::Object(obj);
    let user = authenticate_oauth2(&value).expect("principal");
    assert_eq!(user.user_id, 42);
    assert_eq!(user.username, "bob");
    assert_eq!(user.roles, vec!["user".to_string(), "ops".to_string()]);
    assert_eq!(user.extra, vec![("email".to_string(), "bob@example.com".to_string())]);

    let empty = serde_json::Value::Object(serde_json::Map::new());
    assert!(matches!(authenticate_oauth2(&empty), Err(Error::OAuth2Error(_))));
}

#[test]
fn userinfo_principal_fallbacks() {
    let id = String::from("9");
    let email = String::from("e@x");
    let r = userinfo_principal(Some(&id), Some(&email), Some(&email), None).expect("ok");
    assert_eq!(r.user_id, 9);
    assert_eq!(r.username, "e@x");
    assert!(r.roles.is_empty());
    assert_eq!(r.extra, vec![("email".to_string(), "e@x".to_string())]);

    let ok_no_name = userinfo_principal(Some(&id), None, None, None).expect("ok");
    assert_eq!(ok_no_name.username, "oauth_user");

    let bad = String::from("not-a-number");
    assert!(matches!(
        userinfo_principal(Some(&bad), None, None, None),
        Err(Error::OAuth2Error(_))
    ));
    assert!(matches!(
        userinfo_principal(None, None, None, None),
        Err(Error::OAuth2Error(_))
    ));
}

#[test]
fn present_non_string_sub_is_an_error_not_a_fallback() {
    let mut obj = serde_json::Map::new();
    obj.insert("sub".to_string(), serde_json::Value::from(42));
    obj.insert("id".to_string(), serde_json::Value::String("7".to_string()));
    let r = authenticate_oauth2(&serde_json::Value::Object(obj));
    assert!(matches!(r, Err(Error::OAuth2Error(_))));

    let mut only_id = serde_json::Map::new();
    only_id.insert("id".to_string(), serde_json::Value::String("7".to_string()));
    let user = authenticate_oauth2(&serde_json::Value::Object(only_id)).expect("principal");
    assert_eq!(user.user_id, 7);

    // a present non-string name falls back to the stock username
    let mut odd_name = serde_json::Map::new();
    odd_name.insert("sub".to_string(), serde_json::Value::String("5".to_string()));
    odd_name.insert("name".to_string(), serde_json::Value::from(1));
    odd_name.insert("email".to_string(), serde_json::Value::String("e@x".to_string()));
    let user2 = authenticate_oauth2(&serde_json::Value::Object(odd_name)).expect("principal");
    assert_eq!(user2.username, "oauth_user");
}

#[test]
fn roles_grant_and_deny() {
    let admin = vec!["ADMIN".to_string()];
    let user = vec!["user".to_string()];
    let required = vec!["ops".to_string()];
    assert!(has_required_roles(&admin, &required));
    assert!(!has_required_roles(&user, &required));
    assert!(has_required_roles(&user, &vec!["user".to_string(), "ops".to_string()]));

    let principal = UserInfo {
        user_id: 1,
        username: "u".to_string(),
        roles: user.clone(),
        extra: Vec::new(),
    };
    assert!(authorize(Some(&principal), &Vec::new()).is_ok());
    assert!(matches!(
        authorize(Some(&principal), &required),
        Err(Error::InsufficientPermissions)
    ));
    assert!(matches!(authorize(None, &required), Err(Error::Unauthorized)));
}

#[test]
fn client_ip_prefers_forwarded_for() {
    let h = headers(&[("X-Forwarded-For", " 9.9.9.9 ,8.8.8.8"), ("X-Real-IP", "7.7.7.7")]);
    assert_eq!(get_client_ip(&h, None).as_deref(), Some("9.9.9.9"));
    let h2 = headers(&[("X-Real-IP", "7.7.7.7")]);
    assert_eq!(get_client_ip(&h2, None).as_deref(), Some("7.7.7.7"));
    let peer = String::from("6.6.6.6");
    assert_eq!(get_client_ip(&headers(&[]), Some(&peer)).as_deref(), Some("6.6.6.6"));
    assert_eq!(get_client_ip(&headers(&[]), None), None);
}

#[test]
fn method_allowlist_and_body_rule() {
    let routes = RoutesConfig::default().routes;
    let hs = headers(&[]);
    let r = plan_http_forward("TRACE", "/x", "/x", &hs, None, &routes, "http://u");
    assert!(matches!(r, Err(Error::MethodNotAllowed)));
    let post = plan_http_forward("POST", "/x", "/x", &hs, None, &routes, "http://u").unwrap();
    assert!(post.send_body);
    let head = plan_http_forward("HEAD", "/x", "/x", &hs, None, &routes, "http://u").unwrap();
    assert!(!head.send_body);
}

#[test]
fn plan_applies_route_rewrite() {
    let routes = RoutesConfig::default().routes;
    let hs = headers(&[]);
    let plan = plan_http_forward(
        "GET",
        "/api/auth/ping",
        "/api/auth/ping?x=1",
        &hs,
        None,
        &routes,
        "http://10.0.0.7:9001",
    )
    .unwrap();
    assert_eq!(plan.target_url, "http://10.0.0.7:9001/ping?x=1");
}

#[test]
fn retry_policy() {
    assert!(is_retryable_status(500));
    assert!(is_retryable_status(429));
    assert!(!is_retryable_status(200));
    assert!(is_retryable_error(TransportErrorKind::Timeout));
    assert!(!is_retryable_error(TransportErrorKind::Other));
    assert!(should_retry("GET", TransportErrorKind::Connect, 1, 3));
    assert!(!should_retry("POST", TransportErrorKind::Connect, 1, 3));
    assert!(!should_retry("PATCH", TransportErrorKind::Timeout, 1, 3));
    assert!(!should_retry("GET", TransportErrorKind::Connect, 4, 3));
    let c = HttpClientConfig::default();
    assert_eq!(c.max_retries, 3);
    assert_eq!(c.timeout, 30);
}

#[test]
fn discovery_caches_and_picks_a_live_instance() {
    let mut d = ServiceDiscovery::new("http://localhost:8500");
    assert!(d.lookup("user-service").is_none());
    assert!(d.get_service_url("user-service").is_none());
    let instances =
        vec!["http://10.0.0.7:9001".to_string(), "http://10.0.0.8:9001".to_string()];
    d.store("user-service", instances.clone());
    let got = d.lookup("user-service").expect("cached");
    assert_eq!(got, instances);
    for _ in 0..20 {
        let url = d.get_service_url("user-service").expect("one instance");
        assert!(instances.contains(&url));
    }
    d.store("user-service", vec!["http://10.0.0.9:9001".to_string()]);
    assert_eq!(
        d.get_service_url("user-service").as_deref(),
        Some("http://10.0.0.9:9001")
    );
}

#[test]
fn catalog_rows_become_urls() {
    let rows = vec![
        CatalogInstance {
            service_address: "10.0.0.7".to_string(),
            address: "node1".to_string(),
            service_port: 9001,
        },
        CatalogInstance {
            service_address: String::new(),
            address: "10.0.0.8".to_string(),
            service_port: 80,
        },
        CatalogInstance {
            service_address: String::new(),
            address: String::new(),
            service_port: 1,
        },
    ];
    assert_eq!(
        instance_urls(&rows),
        vec!["http://10.0.0.7:9001".to_string(), "http://10.0.0.8:80".to_string()]
    );
}

#[test]
fn service_names_and_registry_urls() {
    assert_eq!(get_service_name(&ServiceType::Auth), "auth-service");
    assert_eq!(get_service_name(&ServiceType::User), "user-service");
    assert_eq!(get_service_name(&ServiceType::HttpService("billing".to_string())), "billing");
    assert_eq!(make_service_id("gw", "10.0.0.1", 8080), "gw-10.0.0.1-8080");
    assert_eq!(
        health_service_url("http://localhost:8500", "user-service"),
        "http://localhost:8500/v1/health/service/user-service?passing=true"
    );
}

#[test]
fn metrics_count_requests_responses_and_errors() {
    let mut m = init_metrics();
    m.record_request("GET", "/api/users/1");
    m.record_request("GET", "/api/users/1");
    m.record_response("GET", "/api/users/1", 200, 12);
    m.record_response("GET", "/api/users/1", 502, 5);
    m.record_failure("GET", "/api/users/1");
    let key = vec![
        "GET".to_string(),
        "/api/users/1".to_string(),
        "user".to_string(),
    ];
    assert_eq!(m.requests_total.get(&key), 2);
    let ok_key = vec![
        "GET".to_string(),
        "/api/users/1".to_string(),
        "user".to_string(),
        "200".to_string(),
    ];
    let bad_key = vec![
        "GET".to_string(),
        "/api/users/1".to_string(),
        "user".to_string(),
        "502".to_string(),
    ];
    let err_key = vec![
        "GET".to_string(),
        "/api/users/1".to_string(),
        "user".to_string(),
        "error".to_string(),
    ];
    assert_eq!(m.responses_total.get(&ok_key), 1);
    assert_eq!(m.responses_total.get(&bad_key), 1);
    assert_eq!(m.errors_total.get(&bad_key), 1);
    assert_eq!(m.errors_total.get(&err_key), 1);
    assert_eq!(m.duration_count, 2);
    assert_eq!(m.duration_sum_ms, 17);
    assert_eq!(extract_service_name("/metrics"), "metrics");
}

#[test]
fn auth_error_renders_status_and_message() {
    assert_eq!(AuthError::Unauthorized.response_parts().0, 401);
    assert_eq!(AuthError::InsufficientPermissions.response_parts().0, 403);
    assert_eq!(AuthError::InternalError("x".to_string()).response_parts().0, 500);
    let (status, message) = AuthError::OAuth2Error("boom".to_string()).response_parts();
    assert_eq!(status, 401);
    assert_eq!(message, "boom");
}

#[test]
fn header_model_sets_and_gets() {
    let mut h = headers(&[("a", "1")]);
    header_set(&mut h, "a", "2");
    header_set(&mut h, "b", "3");
    assert_eq!(header_get(&h, "a").as_deref(), Some("2"));
    assert_eq!(header_get(&h, "b").as_deref(), Some("3"));
    assert_eq!(header_get(&h, "c"), None);
}

#[test]
fn trace_context_parses_traceparent() {
    let h = headers(&[("traceparent", "00-abcd1234-ef567890-01")]);
    let (trace, span) = extract_trace_context(&h).expect("parsed");
    assert_eq!(trace, "abcd1234");
    assert_eq!(span, "ef567890");
    let bad = headers(&[("traceparent", "not-a-trace")]);
    assert!(extract_trace_context(&bad).is_none());
    assert!(extract_trace_context(&headers(&[])).is_none());
}

#[test]
fn decimal_rendering_and_parsing() {
    assert_eq!(u64_to_string(0), "0");
    assert_eq!(u64_to_string(42), "42");
    assert_eq!(u64_to_string(18446744073709551615), "18446744073709551615");
    assert_eq!(i64_to_string(-5), "-5");
    assert_eq!(i64_to_string(9223372036854775807), "9223372036854775807");
    assert_eq!(i64_to_string(-9223372036854775808), "-9223372036854775808");
    assert_eq!(parse_i64("100"), Some(100));
    assert_eq!(parse_i64("-100"), Some(-100));
    assert_eq!(parse_i64("9223372036854775807"), Some(9223372036854775807));
    assert_eq!(parse_i64("9223372036854775808"), None);
    assert_eq!(parse_i64("-9223372036854775808"), Some(i64::MIN));
    assert_eq!(parse_i64(""), None);
    assert_eq!(parse_i64("12a"), None);
    assert_eq!(parse_i64("-"), None);
}

#[test]
fn split_and_trim() {
    assert_eq!(split_string("a,b,,c", ','), vec!["a", "b", "", "c"]);
    assert_eq!(split_string("", ','), vec![""]);
    assert_eq!(trim_spaces("  x y\t "), "x y");
    assert_eq!(trim_spaces(""), "");
}

#[test]
fn duplicate_header_names_use_the_first_value() {
    let h = headers(&[("x", "1"), ("x", "2")]);
    assert_eq!(header_get(&h, "x").as_deref(), Some("1"));
}

#[test]
fn api_key_limiter_charges_recognised_keys() {
    let config = RateLimitConfig {
        global: RateLimitRule { requests_per_second: 1000, burst_size: 1000, enabled: true },
        path_rules: Vec::new(),
        api_key_rules: vec![(
            "key1".to_string(),
            RateLimitRule { requests_per_second: 1, burst_size: 1, enabled: true },
        )],
        ip_rules: Vec::new(),
    };
    let mut limiter = RateLimitLayer::new(&config, 0);
    assert!(limiter.check("/x", "ip", Some("key1"), 0).allowed);
    assert!(!limiter.check("/x", "ip", Some("key1"), 1).allowed);
    assert!(limiter.check("/x", "ip", Some("other"), 2).allowed);
    assert!(limiter.check("/x", "ip", None, 3).allowed);
}

#[test]
fn malformed_roles_claim_rejects_the_token() {
    let now = 1_700_000_000u64;
    let mut claims = standard_claims(now);
    claims.insert(
        "roles".to_string(),
        serde_json::Value::Array(vec![
            serde_json::Value::String("user".to_string()),
            serde_json::Value::from(7),
        ]),
    );
    let token = make_token(b"s3cret", claims);
    let mut jwt = AuthConfig::default().jwt;
    jwt.secret = "s3cret".to_string();
    assert!(matches!(verify_token(&token, &jwt, now), Err(Error::InvalidToken)));
}

#[test]
fn malformed_issuer_claim_rejects_the_token() {
    let now = 1_700_000_000u64;
    let mut claims = standard_claims(now);
    claims.insert("iss".to_string(), serde_json::Value::from(5));
    let token = make_token(b"s3cret", claims);
    let mut jwt = AuthConfig::default().jwt;
    jwt.secret = "s3cret".to_string();
    assert!(matches!(verify_token(&token, &jwt, now), Err(Error::InvalidToken)));
}

#[test]
fn oauth_roles_keep_string_elements_only() {
    let mut obj = serde_json::Map::new();
    obj.insert("sub".to_string(), serde_json::Value::String("42".to_string()));
    obj.insert(
        "roles".to_string(),
        serde_json::Value::Array(vec![
            serde_json::Value::String("user".to_string()),
            serde_json::Value::from(7),
            serde_json::Value::String("ops".to_string()),
        ]),
    );
    let user = authenticate_oauth2(&serde_json::Value::Object(obj)).expect("principal");
    assert_eq!(user.roles, vec!["user".to_string(), "ops".to_string()]);
}

#[test]
fn metrics_page_renders_rows_and_summary() {
    let mut m = init_metrics();
    m.record_request("GET", "/api/users/1");
    m.record_response("GET", "/api/users/1", 200, 12);
    let text = api_gateway::metrics::metrics_text(&m);
    assert!(text.contains("# TYPE gateway_requests_total counter\n"));
    assert!(text.contains(
        "gateway_requests_total{method=\"GET\",path=\"/api/users/1\",service=\"user\"} 1\n"
    ));
    assert!(text.contains(
        "gateway_responses_total{method=\"GET\",path=\"/api/users/1\",service=\"user\",status=\"200\"} 1\n"
    ));
    assert!(text.contains("gateway_request_duration_ms_sum 12\n"));
    assert!(text.contains("gateway_request_duration_ms_count 1\n"));
}

#[test]
fn extra_claims_reach_the_principal() {
    let now = 1_700_000_000u64;
    let mut extra = serde_json::Map::new();
    extra.insert("email".to_string(), serde_json::Value::String("a@b.c".to_string()));
    let mut claims = standard_claims(now);
    claims.insert("extra".to_string(), serde_json::Value::Object(extra));
    let token = make_token(b"s3cret", claims);
    let mut jwt = AuthConfig::default().jwt;
    jwt.secret = "s3cret".to_string();
    let user = verify_token(&token, &jwt, now).expect("accepted");
    assert_eq!(user.extra, vec![("email".to_string(), "a@b.c".to_string())]);
}

#[test]
fn malformed_extra_claim_rejects_the_token() {
    let now = 1_700_000_000u64;
    let mut claims = standard_claims(now);
    claims.insert("extra".to_string(), serde_json::Value::from(3));
    let token = make_token(b"s3cret", claims);
    let mut jwt = AuthConfig::default().jwt;
    jwt.secret = "s3cret".to_string();
    assert!(matches!(verify_token(&token, &jwt, now), Err(Error::InvalidToken)));
}

#[test]
fn escaped_username_survives_the_round_trip() {
    let now = 1_700_000_000u64;
    let mut claims = standard_claims(now);
    claims.insert(
        "username".to_string(),
        serde_json::Value::String("al\"i\\ce\n".to_string()),
    );
    let token = make_token(b"s3cret", claims);
    let mut jwt = AuthConfig::default().jwt;
    jwt.secret = "s3cret".to_string();
    let user = verify_token(&token, &jwt, now).expect("accepted");
    assert_eq!(user.username, "al\"i\\ce\n");
}
