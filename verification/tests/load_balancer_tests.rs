//! Backends, routers, retry settings and the load-balancing strategies.

use kairos_rs::models::router::{Backend, LoadBalancingStrategy, Protocol, RetryConfig, Router};
use kairos_rs::services::load_balancer::{
    IpHashBalancer, LeastConnectionsBalancer, LoadBalancer, LoadBalancerFactory, RandomBalancer,
    RoundRobinBalancer, WeightedBalancer,
};

fn backend(host: &str, port: u16, weight: u32) -> Backend {
    Backend { host: host.to_string(), port, weight, health_check_path: None }
}

fn two_backends_router() -> Router {
    Router {
        host: None,
        port: None,
        backends: Some(vec![
            Backend {
                host: "http://backend-1".to_string(),
                port: 8080,
                weight: 1,
                health_check_path: Some("/health".to_string()),
            },
            Backend {
                host: "http://backend-2".to_string(),
                port: 8080,
                weight: 2,
                health_check_path: Some("/health".to_string()),
            },
        ]),
        load_balancing_strategy: LoadBalancingStrategy::Weighted,
        external_path: "/api/test".to_string(),
        internal_path: "/test".to_string(),
        methods: vec!["GET".to_string()],
        auth_required: false,
        retry: None,
        protocol: Protocol::Http,
        request_transformation: None,
        response_transformation: None,
    }
}

#[test]
fn test_backend_validation() {
    let valid_backend = Backend {
        host: "http://localhost".to_string(),
        port: 8080,
        weight: 1,
        health_check_path: Some("/health".to_string()),
    };
    assert!(valid_backend.validate().is_ok());

    let invalid_host_backend = backend("localhost", 8080, 1);
    assert!(invalid_host_backend.validate().is_err());

    let zero_port_backend = backend("http://localhost", 0, 1);
    assert!(zero_port_backend.validate().is_err());

    let zero_weight_backend = backend("http://localhost", 8080, 0);
    assert!(zero_weight_backend.validate().is_err());
}

#[test]
fn test_backend_validation_messages() {
    assert_eq!(
        backend("localhost", 8080, 1).validate(),
        Err("Backend host must start with http:// or https://: localhost".to_string())
    );
    assert_eq!(
        backend("https://x", 0, 1).validate(),
        Err("Backend port must be between 1 and 65535".to_string())
    );
    assert_eq!(
        backend("https://x", 1, 0).validate(),
        Err("Backend weight must be greater than 0".to_string())
    );
}

#[test]
fn test_router_with_backends() {
    let router = two_backends_router();
    assert!(router.validate().is_ok());

    let backends = router.get_backends();
    assert_eq!(backends.len(), 2);
    assert_eq!(backends[0].host, "http://backend-1");
    assert_eq!(backends[1].host, "http://backend-2");
}

#[test]
fn test_router_legacy_mode() {
    let router = Router {
        host: Some("http://legacy-backend".to_string()),
        port: Some(8080),
        backends: None,
        load_balancing_strategy: LoadBalancingStrategy::RoundRobin,
        external_path: "/api/legacy".to_string(),
        internal_path: "/legacy".to_string(),
        methods: vec!["GET".to_string()],
        auth_required: false,
        retry: None,
        protocol: Protocol::Http,
        request_transformation: None,
        response_transformation: None,
    };

    assert!(router.validate().is_ok());

    let backends = router.get_backends();
    assert_eq!(backends.len(), 1);
    assert_eq!(backends[0].host, "http://legacy-backend");
    assert_eq!(backends[0].port, 8080);
}

#[test]
fn test_router_validation_errors() {
    let mut r = two_backends_router();
    r.external_path = "api".to_string();
    assert_eq!(r.validate(), Err("External path must start with '/'".to_string()));

    let mut r = two_backends_router();
    r.methods = vec![];
    assert_eq!(r.validate(), Err("At least one HTTP method must be specified".to_string()));

    let mut r = two_backends_router();
    r.methods = vec!["GET".to_string(), "FETCH".to_string()];
    assert_eq!(r.validate(), Err("Invalid HTTP method: FETCH".to_string()));

    let mut r = two_backends_router();
    r.backends = Some(vec![]);
    assert_eq!(r.validate(), Err("At least one backend must be specified".to_string()));

    let mut r = two_backends_router();
    r.backends = Some(vec![backend("http://a", 1, 1), backend("http://b", 1, 0)]);
    assert_eq!(
        r.validate(),
        Err("Backend 1 validation failed: Backend weight must be greater than 0".to_string())
    );

    let mut r = two_backends_router();
    r.backends = None;
    assert_eq!(r.validate(), Err("Either backends or host/port must be specified".to_string()));
}

#[test]
fn test_load_balancer_factory() {
    let strategies = vec![
        LoadBalancingStrategy::RoundRobin,
        LoadBalancingStrategy::LeastConnections,
        LoadBalancingStrategy::Random,
        LoadBalancingStrategy::Weighted,
        LoadBalancingStrategy::IpHash,
    ];

    for strategy in strategies {
        let mut balancer = LoadBalancerFactory::create(&strategy);
        assert!(balancer.select_backend(&[], None).is_none());
    }
}

#[test]
fn test_round_robin_balancer() {
    let mut balancer = RoundRobinBalancer::new();
    let backends = vec![
        backend("http://backend-1", 8080, 1),
        backend("http://backend-2", 8080, 1),
        backend("http://backend-3", 8080, 1),
    ];

    for i in 0..9 {
        let selected = balancer.select_backend(&backends, None).unwrap();
        let expected = format!("http://backend-{}", (i % 3) + 1);
        assert_eq!(selected.host, expected);
    }
}

#[test]
fn test_weighted_balancer() {
    let mut balancer = WeightedBalancer::new();
    let backends = vec![backend("http://backend-1", 8080, 2), backend("http://backend-2", 8080, 1)];

    let mut counts = std::collections::HashMap::new();
    for _ in 0..30 {
        let selected = balancer.select_backend(&backends, None).unwrap();
        *counts.entry(selected.host).or_insert(0) += 1;
    }

    let backend_1_count = counts.get("http://backend-1").unwrap_or(&0);
    let backend_2_count = counts.get("http://backend-2").unwrap_or(&0);
    assert_eq!(*backend_1_count, 20);
    assert_eq!(*backend_2_count, 10);
}

#[test]
fn test_least_connections_prefers_idle_backend() {
    let mut balancer = LeastConnectionsBalancer::new();
    let backends = vec![backend("http://a", 1, 1), backend("http://b", 1, 1)];
    let first = balancer.select_backend(&backends, None).unwrap();
    assert_eq!(first.host, "http://a");
    let second = balancer.select_backend(&backends, None).unwrap();
    assert_eq!(second.host, "http://b");
    balancer.record_success(&first);
    let third = balancer.select_backend(&backends, None).unwrap();
    assert_eq!(third.host, "http://a");
}

#[test]
fn test_random_balancer_picks_a_listed_backend() {
    let mut balancer = RandomBalancer::new();
    let backends = vec![backend("http://a", 1, 1), backend("http://b", 1, 1)];
    for _ in 0..20 {
        let selected = balancer.select_backend(&backends, None).unwrap();
        assert!(selected.host == "http://a" || selected.host == "http://b");
    }
}

#[test]
fn test_ip_hash_balancer_is_sticky() {
    let mut balancer = IpHashBalancer::new();
    let backends = vec![
        backend("http://a", 1, 1),
        backend("http://b", 1, 1),
        backend("http://c", 1, 1),
    ];
    let first = balancer.select_backend(&backends, Some("10.0.0.7")).unwrap();
    for _ in 0..5 {
        let again = balancer.select_backend(&backends, Some("10.0.0.7")).unwrap();
        assert_eq!(again.host, first.host);
    }
    let no_ip = balancer.select_backend(&backends, None).unwrap();
    assert_eq!(no_ip.host, "http://a");
}

fn valid_retry() -> RetryConfig {
    RetryConfig {
        max_retries: 3,
        initial_backoff_ms: 100,
        max_backoff_ms: 5000,
        backoff_multiplier_bits: 2.0f64.to_bits(),
        retry_on_status_codes: vec![502, 503, 504],
        retry_on_connection_error: true,
    }
}

#[test]
fn test_retry_config_validation() {
    let valid_config = valid_retry();
    assert!(valid_config.validate().is_ok());

    let too_many_retries = RetryConfig { max_retries: 20, ..valid_config.clone() };
    assert!(too_many_retries.validate().is_err());

    let invalid_backoff =
        RetryConfig { initial_backoff_ms: 10000, max_backoff_ms: 1000, ..valid_config.clone() };
    assert!(invalid_backoff.validate().is_err());

    let invalid_multiplier =
        RetryConfig { backoff_multiplier_bits: 0.5f64.to_bits(), ..valid_config };
    assert!(invalid_multiplier.validate().is_err());
}

#[test]
fn test_retry_multiplier_edges() {
    let one = RetryConfig { backoff_multiplier_bits: 1.0f64.to_bits(), ..valid_retry() };
    assert!(one.validate().is_ok());
    let negative = RetryConfig { backoff_multiplier_bits: (-3.0f64).to_bits(), ..valid_retry() };
    assert_eq!(negative.validate(), Err("backoff_multiplier must be >= 1.0".to_string()));
    let nan = RetryConfig { backoff_multiplier_bits: f64::NAN.to_bits(), ..valid_retry() };
    assert!(nan.validate().is_ok());
}
