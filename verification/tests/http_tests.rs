//! HTTP forwarding decisions: route matching, methods, headers, breakers,
//! retries and metrics.

use kairos_rs::models::error::GatewayError;
use kairos_rs::models::router::{Backend, LoadBalancingStrategy, Protocol, RetryConfig, Router};
use kairos_rs::routes::metrics::{render_metrics, MetricsCollector};
use kairos_rs::services::circuit_breaker::CircuitState;
use kairos_rs::services::http::{
    build_headers_optimized, keep_response_header, parse_method, record_response, to_ascii_lower,
    AttemptLoop, AttemptStep, RouteHandler,
};
use kairos_rs::utils::path::format_route;
use kairos_rs::utils::route_matcher::{RouteMatchError, RouteMatcher};

fn backend(host: &str, port: u16) -> Backend {
    Backend { host: host.to_string(), port, weight: 1, health_check_path: None }
}

fn router(external: &str, internal: &str, backends: Vec<Backend>) -> Router {
    Router {
        host: None,
        port: None,
        backends: Some(backends),
        load_balancing_strategy: LoadBalancingStrategy::RoundRobin,
        external_path: external.to_string(),
        internal_path: internal.to_string(),
        methods: vec!["GET".to_string(), "POST".to_string()],
        auth_required: false,
        retry: None,
        protocol: Protocol::Http,
        request_transformation: None,
        response_transformation: None,
    }
}

fn retry(codes: Vec<u16>, on_error: bool) -> RetryConfig {
    RetryConfig {
        max_retries: 2,
        initial_backoff_ms: 10,
        max_backoff_ms: 100,
        backoff_multiplier_bits: 2.0f64.to_bits(),
        retry_on_status_codes: codes,
        retry_on_connection_error: on_error,
    }
}

fn handler() -> RouteHandler {
    RouteHandler::new(
        vec![
            router("/users/{id}", "/v1/users/{id}", vec![backend("http://a", 1)]),
            router("/users/me", "/v1/me", vec![backend("http://a", 1)]),
            router("/orders/{id}/items/{item}", "/items/{item}/of/{id}", vec![
                backend("http://a", 1),
                backend("http://b", 2),
            ]),
        ],
        30,
    )
}

#[test]
fn test_static_routes_win_over_dynamic() {
    let h = handler();
    assert_eq!(h.timeout_seconds(), 30);
    let (i, internal) = h.find_route("/users/me").unwrap();
    assert_eq!(i, 1);
    assert_eq!(internal, "/v1/me");
    let (i, internal) = h.find_route("/users/42").unwrap();
    assert_eq!(i, 0);
    assert_eq!(internal, "/v1/users/42");
    assert_eq!(h.route(0).external_path, "/users/{id}");
}

#[test]
fn test_dynamic_substitution_and_misses() {
    let h = handler();
    let (i, internal) = h.find_route("/orders/7/items/x9").unwrap();
    assert_eq!(i, 2);
    assert_eq!(internal, "/items/x9/of/7");
    match h.find_route("/nothing/here") {
        Err(GatewayError::RouteNotFound { path }) => assert_eq!(path, "/nothing/here"),
        other => panic!("unexpected {:?}", other),
    }
    assert!(h.find_route("/users/").is_err());
}

#[test]
fn test_route_matcher_directly() {
    let m = RouteMatcher::new(vec![router("/a/{x}", "/b/{x}", vec![backend("http://h", 1)])]);
    assert_eq!(m.len(), 1);
    assert_eq!(m.find_match("/a/q").unwrap(), (0, "/b/q".to_string()));
    assert!(matches!(m.find_match("/a/q/r"), Err(RouteMatchError::NoMatch { .. })));
}

#[test]
fn test_methods_and_backends() {
    let r = router("/x", "/y", vec![backend("http://a", 1)]);
    assert!(RouteHandler::check_method(&r, "GET", "/x").is_ok());
    match RouteHandler::check_method(&r, "DELETE", "/x") {
        Err(GatewayError::MethodNotAllowed { method, path }) => {
            assert_eq!(method, "DELETE");
            assert_eq!(path, "/x");
        }
        other => panic!("unexpected {:?}", other),
    }
    assert_eq!(RouteHandler::route_backends(&r, "/x").unwrap().len(), 1);
    let mut empty = r.clone();
    empty.backends = None;
    match RouteHandler::route_backends(&empty, "/x") {
        Err(GatewayError::Config { message, route }) => {
            assert_eq!(message, "No backends configured for route");
            assert_eq!(route, "/x");
        }
        other => panic!("unexpected {:?}", other),
    }
    assert_eq!(RouteHandler::max_attempts(&None), 1);
    assert_eq!(RouteHandler::max_attempts(&Some(retry(vec![], false))), 3);
    let mut huge = retry(vec![], false);
    huge.max_retries = u32::MAX;
    assert_eq!(RouteHandler::max_attempts(&Some(huge)), 0);
}

#[test]
fn test_selection_rotates_with_balancer() {
    let mut h = handler();
    let r = h.route(2).clone();
    let bs = RouteHandler::route_backends(&r, "/orders/1/items/2").unwrap();
    let first = h.select_backend(&r, &bs, None, "/orders/1/items/2").unwrap();
    let second = h.select_backend(&r, &bs, None, "/orders/1/items/2").unwrap();
    assert_eq!(first.host, "http://a");
    assert_eq!(second.host, "http://b");
    let single = h.route(0).clone();
    let one = RouteHandler::route_backends(&single, "/users/1").unwrap();
    assert_eq!(h.select_backend(&single, &one, None, "/users/1").unwrap().host, "http://a");
}

#[test]
fn test_breakers_open_and_fail_fast() {
    let mut h = handler();
    let b = backend("http://a", 1);
    let states = h.get_circuit_breaker_states();
    assert_eq!(states.len(), 2);
    assert_eq!(states[0].0, "http://a:1");
    assert_eq!(states[1].0, "http://b:2");
    assert_eq!(states[0].1, CircuitState::Closed);

    for t in 0..5u64 {
        assert_eq!(h.check_breaker(&b, t, "/users/1", 1, 0, 1).unwrap(), true);
        let step = h.complete_attempt(
            "/users/{id}",
            &b,
            &None,
            0,
            1,
            Err(GatewayError::Timeout { timeout: 30 }),
            t,
        );
        assert!(matches!(step, AttemptStep::Fail(GatewayError::Timeout { timeout: 30 })));
    }
    assert_eq!(h.get_circuit_breaker_states()[0].1, CircuitState::Open);
    match h.check_breaker(&b, 10, "/users/1", 1, 0, 1) {
        Err(GatewayError::CircuitOpen { service }) => assert_eq!(service, "http://a:1"),
        other => panic!("unexpected {:?}", other),
    }
    assert_eq!(h.check_breaker(&b, 10, "/orders/1/items/2", 2, 0, 3).unwrap(), false);
    assert_eq!(h.check_breaker(&b, 30_004, "/users/1", 1, 0, 1).unwrap(), true);
    assert_eq!(h.get_circuit_breaker_states()[0].1, CircuitState::HalfOpen);

    let unknown = backend("http://zzz", 9);
    match h.check_breaker(&unknown, 0, "/p", 1, 0, 1) {
        Err(GatewayError::Config { message, .. }) => {
            assert_eq!(message, "No circuit breaker found for backend: http://zzz:9")
        }
        other => panic!("unexpected {:?}", other),
    }
}

#[test]
fn test_retry_decisions() {
    let mut h = handler();
    let b = backend("http://a", 1);
    let policy = Some(retry(vec![503], true));
    let step = h.complete_attempt("/users/{id}", &b, &policy, 0, 3, Ok(503), 0);
    assert!(matches!(step, AttemptStep::Retry));
    let step = h.complete_attempt("/users/{id}", &b, &policy, 2, 3, Ok(503), 0);
    assert!(matches!(step, AttemptStep::Respond(503)));
    let step = h.complete_attempt("/users/{id}", &b, &policy, 0, 3, Ok(200), 0);
    assert!(matches!(step, AttemptStep::Respond(200)));
    let step = h.complete_attempt(
        "/users/{id}",
        &b,
        &policy,
        1,
        3,
        Err(GatewayError::Timeout { timeout: 1 }),
        0,
    );
    assert!(matches!(step, AttemptStep::Retry));
    match RouteHandler::exhausted(3, "/users/1") {
        GatewayError::Upstream { message, url, status } => {
            assert_eq!(message, "All 3 retry attempts exhausted");
            assert_eq!(url, "/users/1");
            assert_eq!(status, None);
        }
        other => panic!("unexpected {:?}", other),
    }
}

#[test]
fn test_error_statuses() {
    assert_eq!(GatewayError::RouteNotFound { path: "/".to_string() }.status_code(), 404);
    assert_eq!(
        GatewayError::MethodNotAllowed { method: "X".to_string(), path: "/".to_string() }.status_code(),
        405
    );
    assert_eq!(GatewayError::CircuitOpen { service: "s".to_string() }.status_code(), 503);
    assert_eq!(GatewayError::Timeout { timeout: 1 }.status_code(), 504);
    assert_eq!(
        GatewayError::Upstream { message: "m".to_string(), url: "u".to_string(), status: None }
            .status_code(),
        502
    );
    assert_eq!(
        GatewayError::Config { message: "m".to_string(), route: "r".to_string() }.status_code(),
        502
    );
}

#[test]
fn test_methods_and_urls() {
    assert_eq!(parse_method("PATCH"), "PATCH");
    assert_eq!(parse_method("BREW"), "GET");
    assert_eq!(format_route("http://svc", &8080, "/v1/x"), "http://svc:8080/v1/x");
    assert_eq!(to_ascii_lower("X-Forwarded-FOR"), "x-forwarded-for");
}

#[test]
fn test_upstream_headers() {
    let incoming = vec![
        ("Host".to_string(), b"gateway".to_vec()),
        ("Connection".to_string(), b"keep-alive".to_vec()),
        ("accept".to_string(), b"a".to_vec()),
        ("x-id".to_string(), b"1".to_vec()),
        ("accept".to_string(), b"b".to_vec()),
    ];
    let out = build_headers_optimized(&incoming);
    assert_eq!(
        out,
        vec![
            ("accept".to_string(), b"b".to_vec()),
            ("x-id".to_string(), b"1".to_vec()),
            ("user-agent".to_string(), b"kairos-rs/0.2.0".to_vec()),
        ]
    );
    let with_agent = vec![("user-agent".to_string(), b"curl".to_vec())];
    assert_eq!(build_headers_optimized(&with_agent), with_agent);
    assert!(keep_response_header("content-type"));
    assert!(!keep_response_header("connection"));
}

#[test]
fn test_metrics_recording_and_rendering() {
    let mut m = MetricsCollector::default();
    record_response(&mut m, Some(200), 50);
    record_response(&mut m, Some(404), 700);
    record_response(&mut m, None, 6000);
    m.record_timeout_error();
    m.record_connection_error();
    m.increment_connections();
    m.increment_connections();
    m.decrement_connections();
    assert_eq!(m.requests_total, 5);
    assert_eq!(m.requests_success, 1);
    assert_eq!(m.requests_error, 4);
    assert_eq!(m.http_4xx_errors, 1);
    assert_eq!(m.http_5xx_errors, 1);
    assert_eq!(m.timeout_errors, 1);
    assert_eq!(m.connection_errors, 1);
    assert_eq!(m.response_time_bucket_100ms, 1);
    assert_eq!(m.response_time_bucket_1s, 2);
    assert_eq!(m.response_time_bucket_inf, 1);
    assert_eq!(m.response_time_sum, 6750);
    assert_eq!(m.active_connections, 1);
    assert_eq!(m.peak_connections, 2);

    let text = render_metrics(&m, "1350.00", "20.00", 12, &vec![]);
    assert!(text.contains("kairos_requests_total 5\n"));
    assert!(text.contains("kairos_response_time_avg 1350.00\n"));
    assert!(!text.contains("kairos_circuit_breaker_state"));
    let rows = vec![("http://a:1".to_string(), CircuitState::Open, 5, 0)];
    let text = render_metrics(&m, "1350.00", "20.00", 12, &rows);
    assert!(text.contains("kairos_circuit_breaker_state{service=\"http://a:1\"} 1\n"));
    assert!(text.contains("kairos_circuit_breaker_failures{service=\"http://a:1\"} 5\n"));
}

#[test]
fn test_readme_dynamic_routing_example() {
    let h = RouteHandler::new(
        vec![router(
            "/api/users/{user_id}/posts/{post_id}",
            "/users/{user_id}/posts/{post_id}",
            vec![backend("http://svc", 80)],
        )],
        30,
    );
    let (i, internal) = h.find_route("/api/users/123/posts/456").unwrap();
    assert_eq!(i, 0);
    assert_eq!(internal, "/users/123/posts/456");
    assert!(h.find_route("/api/users/123/posts").is_err());
}

#[test]
fn test_bucket_boundaries() {
    let mut m = MetricsCollector::default();
    m.record_request(true, 5000, 200, None, None);
    assert_eq!(m.response_time_bucket_5s, 0);
    assert_eq!(m.response_time_bucket_inf, 1);
    assert_eq!(m.requests_success, 1);
    assert_eq!(m.requests_error, 0);
    m.record_request(true, 100, 200, None, None);
    assert_eq!(m.response_time_bucket_100ms, 0);
    assert_eq!(m.response_time_bucket_500ms, 1);
    m.record_request(false, 99, 503, None, None);
    assert_eq!(m.response_time_bucket_100ms, 1);
    m.record_timeout_error();
    assert_eq!(m.response_time_bucket_5s + m.response_time_bucket_inf, 3);
    assert_eq!(m.requests_total, 4);
}

#[test]
fn test_attempt_loop() {
    let mut a = AttemptLoop::new(3);
    assert!(a.may_try());
    assert_eq!(a.attempt(), 0);
    assert!(a.advance());
    assert!(a.advance());
    assert_eq!(a.attempt(), 2);
    assert!(!a.advance());
    assert_eq!(a.attempt(), 2);
    assert_eq!(a.max_attempts(), 3);
    let none = AttemptLoop::new(0);
    assert!(!none.may_try());
}

#[test]
fn test_weighted_route_picks_by_weight() {
    let mut r = router("/w", "/w", vec![backend("http://a", 1), backend("http://b", 2)]);
    r.load_balancing_strategy = LoadBalancingStrategy::Weighted;
    if let Some(bs) = r.backends.as_mut() {
        bs[0].weight = 2;
    }
    let mut h = RouteHandler::new(vec![r.clone()], 30);
    let bs = RouteHandler::route_backends(&r, "/w").unwrap();
    let picks: Vec<String> =
        (0..6).map(|_| h.select_backend(&r, &bs, None, "/w").unwrap().host).collect();
    assert_eq!(picks, vec!["http://a", "http://a", "http://b", "http://a", "http://a", "http://b"]);
}

#[test]
fn test_completed_attempts_release_least_connections() {
    let mut lc = router("/lc", "/lc", vec![backend("http://a", 1), backend("http://b", 2)]);
    lc.load_balancing_strategy = LoadBalancingStrategy::LeastConnections;
    let mut h = RouteHandler::new(vec![lc.clone()], 30);
    let bs = RouteHandler::route_backends(&lc, "/lc").unwrap();
    let first = h.select_backend(&lc, &bs, None, "/lc").unwrap();
    assert_eq!(first.host, "http://a");
    let step = h.complete_attempt("/lc", &first, &None, 0, 1, Ok(200), 0);
    assert!(matches!(step, AttemptStep::Respond(200)));
    assert_eq!(h.select_backend(&lc, &bs, None, "/lc").unwrap().host, "http://a");
    assert_eq!(h.select_backend(&lc, &bs, None, "/lc").unwrap().host, "http://b");
}

#[test]
fn test_round_robin_starts_at_first_backend() {
    let mut h = handler();
    let r = h.route(2).clone();
    let bs = RouteHandler::route_backends(&r, "/orders/1/items/2").unwrap();
    assert_eq!(h.select_backend(&r, &bs, None, "/orders/1/items/2").unwrap().host, "http://a");
}
