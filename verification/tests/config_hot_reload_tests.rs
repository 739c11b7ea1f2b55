//! Configuration reloads: what a load produced is checked and published
//! under increasing versions.

use kairos_rs::config::hot_reload::{
    config_status, reload_config, reload_response, ConfigManager, ConfigWatcher,
};
use kairos_rs::models::router::{Backend, LoadBalancingStrategy, Protocol, Router};
use kairos_rs::models::settings::Settings;

fn create_test_settings() -> Settings {
    Settings {
        version: 1,
        jwt: None,
        rate_limit: None,
        ai: None,
        routers: vec![Router {
            host: Some("http://localhost".to_string()),
            port: Some(3000),
            external_path: "/test".to_string(),
            internal_path: "/test".to_string(),
            methods: vec!["GET".to_string()],
            auth_required: false,
            backends: Some(vec![Backend {
                host: "http://localhost".to_string(),
                port: 3000,
                weight: 1,
                health_check_path: None,
            }]),
            load_balancing_strategy: LoadBalancingStrategy::RoundRobin,
            retry: None,
            protocol: Protocol::Http,
            request_transformation: None,
            response_transformation: None,
        }],
    }
}

fn with_version(v: u8) -> Settings {
    let mut s = create_test_settings();
    s.version = v;
    s
}

#[test]
fn test_config_watcher_creation() {
    let settings = create_test_settings();
    let watcher = ConfigWatcher::new(settings, "test.json".to_string(), "t0".to_string(), None);

    let current = watcher.get_current_config();
    assert_eq!(current.settings.version, 1);
    assert_eq!(current.version, 1);
    assert_eq!(current.timestamp, "t0");
    assert_eq!(watcher.config_path(), "test.json");
}

#[test]
fn test_manual_reload() {
    let mut watcher =
        ConfigWatcher::new(with_version(2), "config.json".to_string(), "t0".to_string(), None);

    let result = watcher.manual_reload(Ok(with_version(2)), "t1".to_string());
    assert!(result.is_ok());
    assert_eq!(result.unwrap(), 2);

    let updated_config = watcher.get_current_config();
    assert_eq!(updated_config.settings.version, 2);
    assert_eq!(updated_config.version, 2);
    assert_eq!(updated_config.timestamp, "t1");
}

#[test]
fn test_config_watcher_with_invalid_file() {
    let mut watcher =
        ConfigWatcher::new(create_test_settings(), "nonexistent.json".to_string(), "t0".to_string(), None);

    let result = watcher.manual_reload(Err("No such file or directory".to_string()), "t1".to_string());
    assert!(result.is_err());
    let error_msg = result.unwrap_err();
    assert!(error_msg.contains("Failed to load config"));
    assert_eq!(error_msg, "Failed to load config: No such file or directory");
    assert_eq!(watcher.get_current_config().version, 1);
}

#[test]
fn test_config_watcher_with_malformed_json() {
    let mut watcher =
        ConfigWatcher::new(create_test_settings(), "bad.json".to_string(), "t0".to_string(), None);

    let result = watcher.manual_reload(Err("Invalid JSON: expected value".to_string()), "t1".to_string());
    assert!(result.is_err());
    let error_msg = result.unwrap_err();
    assert!(error_msg.contains("Invalid JSON") || error_msg.contains("Failed to load config"));
}

#[test]
fn test_config_version_tracking() {
    let mut watcher =
        ConfigWatcher::new(create_test_settings(), "c.json".to_string(), "t0".to_string(), None);
    for new_version in 2u8..=5u8 {
        let result = watcher.manual_reload(Ok(with_version(new_version)), format!("t{}", new_version));
        assert_eq!(result, Ok(new_version as u64));
        assert_eq!(watcher.get_current_config().settings.version, new_version);
        assert_eq!(watcher.get_current_config().version, new_version as u64);
    }
}

#[test]
fn test_invalid_configuration_is_refused() {
    let mut bad = create_test_settings();
    bad.routers[0].external_path = "test".to_string();
    let verdict = reload_config(Ok(bad));
    let message = verdict.unwrap_err();
    assert!(message.starts_with("Configuration validation failed: "));

    let mut watcher =
        ConfigWatcher::new(create_test_settings(), "c.json".to_string(), "t0".to_string(), None);
    let mut bad = create_test_settings();
    bad.routers[0].methods = vec![];
    assert!(watcher.manual_reload(Ok(bad), "t1".to_string()).is_err());
    assert_eq!(watcher.get_current_config().version, 1);
    assert_eq!(watcher.get_current_config().timestamp, "t0");
}

#[test]
fn test_file_change_detection() {
    let mut watcher =
        ConfigWatcher::new(create_test_settings(), "c.json".to_string(), "t0".to_string(), Some(10));
    assert!(!watcher.needs_reload(Some(10)));
    assert!(!watcher.needs_reload(None));
    assert!(watcher.needs_reload(Some(11)));

    assert_eq!(watcher.file_changed(11, Err("io".to_string()), "t1".to_string()).is_err(), true);
    assert!(watcher.needs_reload(Some(11)));

    assert_eq!(watcher.file_changed(11, Ok(with_version(3)), "t2".to_string()), Ok(2));
    assert!(!watcher.needs_reload(Some(11)));
    assert_eq!(watcher.get_current_config().settings.version, 3);
}

#[test]
fn test_manager_and_responses() {
    let mut manager =
        ConfigManager::new(create_test_settings(), "c.json".to_string(), "t0".to_string(), None);
    let status = config_status(manager.get_current_config());
    assert!(status.success);
    assert_eq!(status.message, "Current configuration status");
    assert_eq!(status.version, Some(1));
    assert_eq!(status.timestamp, Some("t0".to_string()));

    let outcome = manager.reload_now(Ok(with_version(4)), "t1".to_string());
    let (code, body) = reload_response(outcome, manager.get_current_config());
    assert_eq!(code, 200);
    assert!(body.success);
    assert_eq!(body.message, "Configuration reloaded successfully");
    assert_eq!(body.version, Some(2));
    assert_eq!(body.timestamp, Some("t1".to_string()));

    let outcome = manager.reload_now(Err("gone".to_string()), "t2".to_string());
    let (code, body) = reload_response(outcome, manager.get_current_config());
    assert_eq!(code, 500);
    assert!(!body.success);
    assert_eq!(body.message, "Failed to reload configuration: Failed to load config: gone");
    assert_eq!(body.version, None);
}
