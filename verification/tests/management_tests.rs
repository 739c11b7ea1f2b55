//! The route management API: listing, reading, creating, updating and
//! deleting routes, and the configuration endpoints.

use kairos_rs::models::router::{Backend, LoadBalancingStrategy, Protocol, Router};
use kairos_rs::models::settings::{JwtSettings, Settings};
use kairos_rs::middleware::rate_limit::{LimitStrategy, RateLimitConfig, WindowType};
use kairos_rs::routes::management::{
    config_save_failed, save_failed, update_server_config, validate_route, RouteManager,
    ServerConfig,
};

fn route(path: &str, port: u16) -> Router {
    Router {
        host: None,
        port: None,
        backends: Some(vec![Backend {
            host: "http://svc".to_string(),
            port,
            weight: 1,
            health_check_path: None,
        }]),
        load_balancing_strategy: LoadBalancingStrategy::RoundRobin,
        external_path: path.to_string(),
        internal_path: "/internal".to_string(),
        methods: vec!["GET".to_string()],
        auth_required: false,
        retry: None,
        protocol: Protocol::Http,
        request_transformation: None,
        response_transformation: None,
    }
}

fn manager() -> RouteManager {
    let settings = Settings {
        version: 1,
        jwt: None,
        rate_limit: None,
        ai: None,
        routers: vec![route("/users", 1), route("/orders", 2)],
    };
    RouteManager::new(settings, "config.json".to_string())
}

#[test]
fn test_list_and_get_routes() {
    let m = manager();
    assert_eq!(m.config_path(), "config.json");
    let list = m.list_routes();
    assert_eq!(list.status, 200);
    assert_eq!(list.body.message, "Found 2 routes");
    assert_eq!(list.body.routes.as_ref().unwrap().len(), 2);

    let found = m.get_route("users");
    assert_eq!(found.status, 200);
    assert_eq!(found.body.message, "Route found");
    assert_eq!(found.body.route.unwrap().external_path, "/users");

    let missing = m.get_route("nope");
    assert_eq!(missing.status, 404);
    assert_eq!(missing.body.message, "Route not found: /nope");
}

#[test]
fn test_create_route() {
    let mut m = manager();
    let created = m.create_route(route("/items", 3));
    assert_eq!(created.status, 201);
    assert!(created.save);
    assert_eq!(m.get_route("items").body.route.unwrap().backends.unwrap()[0].port, 3);

    let dup = m.create_route(route("/items", 4));
    assert_eq!(dup.status, 409);
    assert_eq!(dup.body.message, "Route already exists: /items");
    assert!(!dup.save);

    let invalid = m.create_route(route("items", 4));
    assert_eq!(invalid.status, 400);
    assert_eq!(invalid.body.message, "Route validation failed: External path must start with '/'");
    assert_eq!(m.get_config().routers.len(), 3);
}

#[test]
fn test_update_route() {
    let mut m = manager();
    let updated = m.update_route("users", route("/users", 9));
    assert_eq!(updated.status, 200);
    assert!(updated.save);
    assert_eq!(m.get_route("users").body.route.unwrap().backends.unwrap()[0].port, 9);

    let mismatch = m.update_route("users", route("/orders", 9));
    assert_eq!(mismatch.status, 400);
    assert_eq!(mismatch.body.message, "Route external_path must match URL parameter");

    let missing = m.update_route("ghost", route("/ghost", 9));
    assert_eq!(missing.status, 404);
}

#[test]
fn test_delete_route() {
    let mut m = manager();
    let deleted = m.delete_route("orders");
    assert_eq!(deleted.status, 200);
    assert!(deleted.save);
    assert_eq!(m.get_route("orders").status, 404);
    assert_eq!(m.get_config().routers.len(), 1);

    let again = m.delete_route("orders");
    assert_eq!(again.status, 404);
    assert!(!again.save);
}

#[test]
fn test_validate_route_endpoint() {
    let ok = validate_route(&route("/a", 1));
    assert!(ok.valid);
    assert!(ok.error.is_none());
    let bad = validate_route(&route("/a", 0));
    assert!(!bad.valid);
    assert_eq!(
        bad.error.unwrap(),
        "Backend 0 validation failed: Backend port must be between 1 and 65535"
    );
}

#[test]
fn test_jwt_and_rate_limit_updates() {
    let mut m = manager();
    let weak = m.update_jwt_config(JwtSettings {
        secret: "short".to_string(),
        issuer: None,
        audience: None,
        required_claims: vec![],
    });
    assert_eq!(weak.status, 400);
    assert_eq!(weak.body.message, "JWT secret should be at least 32 characters for security");
    assert!(m.get_config().jwt.is_none());

    let good = m.update_jwt_config(JwtSettings {
        secret: "0123456789abcdef0123456789abcdef".to_string(),
        issuer: None,
        audience: None,
        required_claims: vec![],
    });
    assert_eq!(good.status, 200);
    assert!(good.save);
    assert!(m.get_config().jwt.is_some());

    let rl = m.update_rate_limit_config(RateLimitConfig {
        strategy: LimitStrategy::PerIP,
        requests_per_window: 5,
        window_duration_secs: 60,
        burst_allowance: 0,
        window_type: WindowType::FixedWindow,
        enable_redis: false,
        redis_key_prefix: "k".to_string(),
    });
    assert_eq!(rl.status, 200);
    assert_eq!(m.get_config().rate_limit.as_ref().unwrap().requests_per_window, 5);
}

#[test]
fn test_server_config_and_save_failures() {
    let cfg = |port, workers| ServerConfig { host: "0.0.0.0".to_string(), port, workers, keep_alive: 5 };
    assert_eq!(update_server_config(&cfg(0, 4)).status, 400);
    assert_eq!(update_server_config(&cfg(0, 4)).body.message, "Port must be greater than 0");
    assert_eq!(update_server_config(&cfg(80, 0)).body.message, "Workers must be greater than 0");
    assert_eq!(update_server_config(&cfg(80, 4)).status, 200);

    let failed = save_failed("disk full");
    assert_eq!(failed.status, 500);
    assert_eq!(failed.body.message, "Failed to save configuration: disk full");
    assert_eq!(config_save_failed("ro").body.message, "Failed to save configuration: ro");
}
