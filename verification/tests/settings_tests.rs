//! Gateway settings validation: JWT requirements and secrets.

use kairos_rs::models::router::{Backend, LoadBalancingStrategy, Protocol, Router};
use kairos_rs::models::settings::{JwtSettings, Settings};

fn create_test_jwt_config() -> JwtSettings {
    JwtSettings {
        secret: "test-secret-key-that-is-long-enough-for-security-requirements".to_string(),
        issuer: Some("kairos-gateway".to_string()),
        audience: Some("api-clients".to_string()),
        required_claims: vec!["sub".to_string(), "exp".to_string()],
    }
}

fn route(host: &str, external: &str, internal: &str, auth_required: bool) -> Router {
    Router {
        host: Some(host.to_string()),
        port: Some(80),
        external_path: external.to_string(),
        internal_path: internal.to_string(),
        methods: vec!["GET".to_string()],
        auth_required,
        backends: Some(vec![Backend {
            host: host.to_string(),
            port: 80,
            weight: 1,
            health_check_path: None,
        }]),
        load_balancing_strategy: LoadBalancingStrategy::RoundRobin,
        retry: None,
        protocol: Protocol::Http,
        request_transformation: None,
        response_transformation: None,
    }
}

fn create_test_settings() -> Settings {
    Settings {
        version: 1,
        jwt: Some(create_test_jwt_config()),
        rate_limit: None,
        ai: None,
        routers: vec![
            route("http://httpbin.org", "/public/test", "/status/200", false),
            route("http://httpbin.org", "/protected/user/{id}", "/json", true),
        ],
    }
}

fn protected_with(jwt: Option<JwtSettings>) -> Settings {
    Settings {
        version: 1,
        jwt,
        rate_limit: None,
        ai: None,
        routers: vec![route("http://example.com", "/protected", "/protected", true)],
    }
}

#[test]
fn test_jwt_config_validation() {
    let invalid_settings = protected_with(None);
    assert!(invalid_settings.validate().is_err());
    assert_eq!(
        invalid_settings.validate(),
        Err("JWT configuration is required when routes have auth_required=true".to_string())
    );

    let valid_settings = create_test_settings();
    assert!(valid_settings.validate().is_ok());
}

#[test]
fn test_jwt_secret_validation() {
    let weak_secret_settings = protected_with(Some(JwtSettings {
        secret: "short".to_string(),
        issuer: None,
        audience: None,
        required_claims: vec![],
    }));
    assert!(weak_secret_settings.validate().is_err());

    let default_secret_settings = protected_with(Some(JwtSettings {
        secret: "please-change-this-secret".to_string(),
        issuer: None,
        audience: None,
        required_claims: vec![],
    }));
    assert!(default_secret_settings.validate().is_err());
    assert_eq!(
        default_secret_settings.validate(),
        Err("JWT secret must be changed from default value".to_string())
    );
}

#[test]
fn test_default_jwt_settings() {
    let from_env = JwtSettings::default_with_secret(Some("s3cr3t".to_string()));
    assert_eq!(from_env.secret, "s3cr3t");
    assert_eq!(from_env.required_claims, vec!["sub".to_string(), "exp".to_string()]);
    let placeholder = JwtSettings::default_with_secret(None);
    assert_eq!(placeholder.secret, "please-change-this-secret");
    assert!(placeholder.issuer.is_none());
}

#[test]
fn test_empty_secret_refused() {
    let empty = protected_with(Some(JwtSettings {
        secret: String::new(),
        issuer: None,
        audience: None,
        required_claims: vec![],
    }));
    assert_eq!(empty.validate(), Err("JWT secret cannot be empty".to_string()));
}
