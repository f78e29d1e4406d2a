use dreas::error::DreasError;
use dreas::metadata::Metadata;
use dreas::services::model::{ModelConfig, ModelRequest};
use dreas::services::ModelService;

fn config(name: &str, enabled: bool) -> ModelConfig {
    ModelConfig {
        name: name.to_string(),
        provider: "openai".to_string(),
        version: "1.0".to_string(),
        endpoint: "https://api.openai.com/v1/chat/completions".to_string(),
        api_key_encrypted: b"encrypted_api_key".to_vec(),
        max_tokens: 2048,
        temperature_bits: 0.7f64.to_bits(),
        capabilities: vec!["chat".to_string(), "completion".to_string()],
        enabled,
    }
}

fn request(model: &str, prompt: &str) -> ModelRequest {
    ModelRequest {
        request_id: 5,
        model_name: model.to_string(),
        prompt: prompt.to_string(),
        max_tokens: Some(100),
        temperature_bits: Some(0.5f64.to_bits()),
        metadata: Metadata::new(),
    }
}

#[test]
fn test_model_service() {
    let mut model_service = ModelService::new();

    let model_config = ModelConfig {
        name: "test-model".to_string(),
        provider: "openai".to_string(),
        version: "1.0".to_string(),
        endpoint: "https://api.openai.com/v1/chat/completions".to_string(),
        api_key_encrypted: b"encrypted_api_key".to_vec(),
        max_tokens: 2048,
        temperature_bits: 0.7f64.to_bits(),
        capabilities: vec!["chat".to_string(), "completion".to_string()],
        enabled: true,
    };

    assert!(model_service.register_model(model_config).is_ok());

    let request = ModelRequest {
        request_id: uuid::Uuid::new_v4().as_u128(),
        model_name: "test-model".to_string(),
        prompt: "Hello, world!".to_string(),
        max_tokens: Some(100),
        temperature_bits: Some(0.5f64.to_bits()),
        metadata: Metadata::new(),
    };

    let response = model_service.send_request(request).unwrap();
    assert!(response.success);
    assert_eq!(response.model_name, "test-model");
}

#[test]
fn temperature_check_agrees_with_the_comparison_of_doubles() {
    let samples = [
        0.0,
        -0.0,
        2.0,
        0.7,
        1.999_999_999,
        2.000_000_000_000_000_4,
        2.1,
        -0.000_000_1,
        -1.0,
        f64::MIN_POSITIVE,
        -f64::MIN_POSITIVE,
        f64::MAX,
        f64::MIN,
        f64::INFINITY,
        f64::NEG_INFINITY,
        f64::NAN,
        -f64::NAN,
        f64::from_bits(1),
        f64::from_bits(0x8000_0000_0000_0001),
        f64::from_bits(0x4000_0000_0000_0001),
        f64::from_bits(0x3fff_ffff_ffff_ffff),
    ];
    for t in samples {
        let refused = t < 0.0 || t > 2.0;
        assert_eq!(ModelService::temperature_in_range(t.to_bits()), !refused, "{}", t);
    }
}

#[test]
fn faulty_configs_are_refused_in_order() {
    let mut service = ModelService::new();
    let mut all_bad = config("", true);
    all_bad.provider = String::new();
    all_bad.endpoint = String::new();
    all_bad.max_tokens = 0;
    all_bad.temperature_bits = 3.0f64.to_bits();
    let steps: [(&str, fn(&mut ModelConfig)); 5] = [
        ("Model name cannot be empty", |c| c.name = "m".to_string()),
        ("Model provider cannot be empty", |c| c.provider = "p".to_string()),
        ("Model endpoint cannot be empty", |c| c.endpoint = "e".to_string()),
        ("Max tokens must be greater than 0", |c| c.max_tokens = 1),
        ("Temperature must be between 0.0 and 2.0", |c| c.temperature_bits = 2.0f64.to_bits()),
    ];
    let mut current = all_bad;
    for (expected, fix) in steps {
        match service.validate_model_config(&current).unwrap_err() {
            DreasError::Configuration(message) => assert_eq!(message, expected),
            other => panic!("unexpected error: {:?}", other),
        }
        assert!(service.register_model(current.clone()).is_err());
        fix(&mut current);
    }
    assert!(service.register_model(current).is_ok());
    assert_eq!(service.get_stats().total_models, 1);
}

#[test]
fn request_is_echoed_and_opens_its_own_connection() {
    let mut service = ModelService::new();
    service.register_model(config("m", true)).unwrap();
    let response = service.send_request(request("m", "Hello, world!")).unwrap();
    assert_eq!(response.request_id, 5);
    assert_eq!(response.response, "Response from m: Hello, world!");
    assert_eq!(response.tokens_used, 3);
    assert_eq!(response.error, None);
    assert_eq!(response.metadata.len(), 0);
    service.send_request(request("m", "")).unwrap();
    let stats = service.get_stats();
    assert_eq!(stats.active_connections, 2);
    assert_eq!(stats.total_requests, 2);
    assert_eq!(stats.total_errors, 0);
}

#[test]
fn unknown_and_disabled_models_refuse_requests() {
    let mut service = ModelService::new();
    service.register_model(config("off", false)).unwrap();
    match service.send_request(request("nope", "x")).unwrap_err() {
        DreasError::Generic(message) => assert_eq!(message, "Model nope not found"),
        other => panic!("unexpected error: {:?}", other),
    }
    match service.send_request(request("off", "x")).unwrap_err() {
        DreasError::Generic(message) => assert_eq!(message, "Model off is disabled"),
        other => panic!("unexpected error: {:?}", other),
    }
    assert_eq!(service.get_stats().active_connections, 0);
    assert!(service.test_model_connectivity("nope").is_err());
    assert!(service.test_model_connectivity("off").is_err());
    service.register_model(config("on", true)).unwrap();
    assert!(service.test_model_connectivity("on").is_ok());
}

#[test]
fn available_models_are_the_enabled_ones_in_order() {
    let mut service = ModelService::new();
    service.register_model(config("a", true)).unwrap();
    service.register_model(config("b", false)).unwrap();
    service.register_model(config("c", true)).unwrap();
    assert_eq!(service.get_available_models(), vec!["a".to_string(), "c".to_string()]);
    let stats = service.get_stats();
    assert_eq!((stats.total_models, stats.enabled_models), (3, 2));

    assert_eq!(service.get_model_config("b").unwrap().unwrap().enabled, false);
    assert!(service.get_model_config("z").unwrap().is_none());
}

#[test]
fn update_replaces_under_the_given_name() {
    let mut service = ModelService::new();
    service.register_model(config("a", true)).unwrap();
    match service.update_model_config("b", config("b", true)).unwrap_err() {
        DreasError::Generic(message) => assert_eq!(message, "Model b not found"),
        other => panic!("unexpected error: {:?}", other),
    }
    let mut bad = config("a", true);
    bad.max_tokens = 0;
    assert!(service.update_model_config("a", bad).is_err());
    assert_eq!(service.get_model_config("a").unwrap().unwrap().max_tokens, 2048);

    let mut changed = config("renamed", false);
    changed.max_tokens = 16;
    service.update_model_config("a", changed).unwrap();
    let stored = service.get_model_config("a").unwrap().unwrap();
    assert_eq!(stored.name, "renamed");
    assert_eq!(stored.max_tokens, 16);
    assert!(service.get_available_models().is_empty());
}

#[test]
fn removing_a_model_closes_its_connections() {
    let mut service = ModelService::new();
    service.register_model(config("a", true)).unwrap();
    service.register_model(config("b", true)).unwrap();
    service.send_request(request("a", "1")).unwrap();
    service.send_request(request("b", "2")).unwrap();
    service.send_request(request("a", "3")).unwrap();
    assert_eq!(service.get_stats().active_connections, 3);

    match service.remove_model("c").unwrap_err() {
        DreasError::Generic(message) => assert_eq!(message, "Model c not found"),
        other => panic!("unexpected error: {:?}", other),
    }
    assert_eq!(service.get_stats().active_connections, 3);

    service.remove_model("a").unwrap();
    let stats = service.get_stats();
    assert_eq!(stats.total_models, 1);
    assert_eq!(stats.active_connections, 1);
    assert_eq!(stats.total_requests, 1);
    assert!(service.remove_model("a").is_err());
}
