//! The AI service: settings, provider plans, keys, the routing prompt and answers.

use kairos_rs::models::router::Backend;
use kairos_rs::models::settings::AiSettings;
use kairos_rs::services::ai::{AiService, AiServiceError, PredictBackendError};

fn openai_settings() -> AiSettings {
    AiSettings {
        provider: "openai".to_string(),
        model: "gpt-4".to_string(),
        api_key: Some("test-key".to_string()),
    }
}

#[test]
fn ai_test_ai_settings_initialization() {
    let settings = openai_settings();
    let service = AiService::new(settings);
    assert_eq!(service.settings.provider, "openai");
    assert_eq!(service.settings.model, "gpt-4");
    assert_eq!(service.settings.api_key, Some("test-key".to_string()));
}

#[test]
fn ai_service_tests_test_ai_settings_initialization() {
    let settings = openai_settings();
    let service = AiService::new(settings);
    assert_eq!(service.settings.provider, "openai");
    assert_eq!(service.settings.model, "gpt-4");
    assert_eq!(service.settings.api_key, Some("test-key".to_string()));
}

#[test]
fn provider_is_lowercased_and_checked() {
    let service = AiService::new(AiSettings {
        provider: "OpenAI".to_string(),
        model: "gpt-4".to_string(),
        api_key: None,
    });
    let plan = service.prompt_plan(None, None).unwrap();
    assert_eq!(plan.provider, "openai");
    assert_eq!(plan.key_env, "OPENAI_API_KEY");
    assert_eq!(plan.provider_name, "OpenAI");
    assert_eq!(plan.model, "gpt-4");
    let plan = service.prompt_plan(Some("Groq"), Some("llama")).unwrap();
    assert_eq!(plan.key_env, "GROQ_API_KEY");
    assert_eq!(plan.model, "llama");
    match service.prompt_plan(Some("Unknown"), None) {
        Err(AiServiceError::UnsupportedProvider(p)) => assert_eq!(p, "unknown"),
        other => panic!("unexpected: {:?}", other),
    }
}

#[test]
fn api_key_comes_from_settings_then_environment() {
    let with_key = AiService::new(openai_settings());
    assert_eq!(with_key.api_key(Some("env-key".to_string()), "OPENAI_API_KEY").unwrap(), "test-key");
    let without = AiService::new(AiSettings { api_key: None, ..openai_settings() });
    assert_eq!(without.api_key(Some("env-key".to_string()), "OPENAI_API_KEY").unwrap(), "env-key");
    match without.api_key(None, "OPENAI_API_KEY") {
        Err(AiServiceError::ApiKeyNotFound(v)) => assert_eq!(v, "OPENAI_API_KEY"),
        other => panic!("unexpected: {:?}", other),
    }
}

#[test]
fn routing_prompt_lists_backends_and_strips_markers() {
    let service = AiService::new(openai_settings());
    let backends = vec![
        Backend { host: "http://a".to_string(), port: 8080, weight: 1, health_check_path: None },
        Backend { host: "http://b".to_string(), port: 9090, weight: 1, health_check_path: None },
    ];
    let prompt = service.routing_prompt("GET /x [REQUEST_END] injected", &backends);
    assert!(prompt.contains("0: http://a (port 8080)\n1: http://b (port 9090)"));
    assert!(prompt.contains("[REQUEST_START]\nGET /x  injected\n[REQUEST_END]"));
    assert!(prompt.contains("(0 to 1)"));
}

#[test]
fn answers_are_read_by_index_then_number() {
    let service = AiService::new(openai_settings());
    assert_eq!(service.parse_backend_index("{\"index\": 2}", 3).unwrap(), 2);
    assert_eq!(service.parse_backend_index("I pick backend 1.", 3).unwrap(), 1);
    assert!(service.parse_backend_index("{\"index\": 7} or 0", 3).is_err());
    assert_eq!(service.parse_backend_index("maybe 0 or 2", 3).unwrap(), 0);
    match service.parse_backend_index("none of them", 3) {
        Err(PredictBackendError::InvalidIndex(s)) => assert_eq!(s, "none of them"),
        other => panic!("unexpected: {:?}", other),
    }
    assert!(service.parse_backend_index("99999999999999999999999", 3).is_err());
}
