use dreas::error::DreasError;
use dreas::metadata::Metadata;
use dreas::services::api::{ApiEndpoint, ApiRequest, HttpMethod, ResponseBody};
use dreas::services::ApiService;
use dreas::time::Timestamp;

fn endpoint(method: HttpMethod, path: &str, handler: &str, requires_auth: bool) -> ApiEndpoint {
    ApiEndpoint {
        path: path.to_string(),
        method,
        handler: handler.to_string(),
        requires_auth,
        rate_limit: Some(100),
        timeout_seconds: Some(30),
    }
}

fn request(method: HttpMethod, path: &str, headers: &[(&str, &str)]) -> ApiRequest {
    let mut map = Metadata::new();
    for (k, v) in headers {
        map.insert(k.to_string(), v.to_string());
    }
    ApiRequest {
        request_id: 77,
        method,
        path: path.to_string(),
        headers: map,
        body: None,
        query_params: Metadata::new(),
        timestamp: Timestamp::new(0, 0),
    }
}

#[test]
fn test_api_service() {
    let mut api_service = ApiService::new(8080);

    let endpoint = ApiEndpoint {
        path: "/test".to_string(),
        method: HttpMethod::GET,
        handler: "test_handler".to_string(),
        requires_auth: false,
        rate_limit: Some(100),
        timeout_seconds: Some(30),
    };

    assert!(api_service.register_endpoint(endpoint).is_ok());

    let request = ApiRequest {
        request_id: uuid::Uuid::new_v4().as_u128(),
        method: HttpMethod::GET,
        path: "/test".to_string(),
        headers: Metadata::new(),
        body: None,
        query_params: Metadata::new(),
        timestamp: Timestamp::new(0, 0),
    };

    let response = api_service.process_request(request).unwrap();
    assert_eq!(response.status_code, 200);
    assert!(response.body.is_some());
}

#[test]
fn method_numbers() {
    let numbers: Vec<usize> = [
        HttpMethod::GET,
        HttpMethod::POST,
        HttpMethod::PUT,
        HttpMethod::DELETE,
        HttpMethod::PATCH,
        HttpMethod::OPTIONS,
    ]
    .into_iter()
    .map(ApiService::method_number)
    .collect();
    assert_eq!(numbers, vec![0, 1, 2, 3, 4, 5]);
}

#[test]
fn faulty_endpoints_are_refused_in_order() {
    let mut api = ApiService::new(1);
    let cases = [
        (endpoint(HttpMethod::GET, "", "", false), "Endpoint path cannot be empty"),
        (endpoint(HttpMethod::GET, "/x", "", false), "Endpoint handler cannot be empty"),
        (endpoint(HttpMethod::GET, "x", "", false), "Endpoint handler cannot be empty"),
        (endpoint(HttpMethod::GET, "x/y", "h", false), "Endpoint path must start with '/'"),
    ];
    for (e, expected) in cases {
        match api.register_endpoint(e).unwrap_err() {
            DreasError::Configuration(message) => assert_eq!(message, expected),
            other => panic!("unexpected error: {:?}", other),
        }
    }
    assert!(api.get_endpoints().is_empty());
    assert_eq!(api.get_service_stats().total_endpoints, 0);
    assert!(api.validate_endpoint(&endpoint(HttpMethod::PUT, "/", "h", true)).is_ok());
}

#[test]
fn endpoints_are_keyed_by_method_and_path() {
    let mut api = ApiService::new(9);
    api.register_endpoint(endpoint(HttpMethod::GET, "/a", "first", false)).unwrap();
    api.register_endpoint(endpoint(HttpMethod::POST, "/a", "second", false)).unwrap();
    api.register_endpoint(endpoint(HttpMethod::GET, "/a", "third", false)).unwrap();
    let handlers: Vec<String> = api.get_endpoints().into_iter().map(|e| e.handler).collect();
    assert_eq!(handlers, vec!["third".to_string(), "second".to_string()]);
    let stats = api.get_service_stats();
    assert_eq!(stats.total_endpoints, 2);
    assert_eq!(stats.port, 9);

    match api.process_request(request(HttpMethod::PUT, "/a", &[])).unwrap_err() {
        DreasError::Generic(message) => assert_eq!(message, "Endpoint not found: 2 /a"),
        other => panic!("unexpected error: {:?}", other),
    }
    match api.remove_endpoint(HttpMethod::OPTIONS, "/a").unwrap_err() {
        DreasError::Generic(message) => assert_eq!(message, "Endpoint not found: 5 /a"),
        other => panic!("unexpected error: {:?}", other),
    }
    assert!(api.remove_endpoint(HttpMethod::GET, "/a").is_ok());
    assert!(api.process_request(request(HttpMethod::GET, "/a", &[])).is_err());
    assert!(api.process_request(request(HttpMethod::POST, "/a", &[])).is_ok());
}

#[test]
fn handlers_choose_the_body() {
    let mut api = ApiService::new(8080);
    api.register_endpoint(endpoint(HttpMethod::GET, "/health", "health_check", false)).unwrap();
    api.register_endpoint(endpoint(HttpMethod::GET, "/stats", "get_stats", false)).unwrap();
    api.register_endpoint(endpoint(HttpMethod::GET, "/other", "custom", false)).unwrap();
    let id = api.get_service_stats().service_id;

    let response = api.process_request(request(HttpMethod::GET, "/health", &[])).unwrap();
    assert_eq!(response.request_id, 77);
    match response.body.unwrap() {
        ResponseBody::Health { service_id, .. } => assert_eq!(service_id, id),
        other => panic!("unexpected body: {:?}", other),
    }
    assert_eq!(response.headers.len(), 3);
    assert_eq!(
        response.headers.get(&"Content-Type".to_string()).map(|s| s.as_str()),
        Some("application/json")
    );
    assert_eq!(
        response.headers.get(&"X-Service-ID".to_string()).cloned(),
        Some(uuid::Uuid::from_u128(id).to_string())
    );
    let stamp = response.headers.get(&"X-Request-Timestamp".to_string()).unwrap();
    assert!(chrono::DateTime::parse_from_rfc3339(stamp).is_ok());

    match api.process_request(request(HttpMethod::GET, "/stats", &[])).unwrap().body.unwrap() {
        ResponseBody::Stats(stats) => {
            assert_eq!(stats.service_id, id);
            assert_eq!(stats.port, 8080);
            assert_eq!(stats.total_endpoints, 3);
        }
        other => panic!("unexpected body: {:?}", other),
    }
    match api.process_request(request(HttpMethod::GET, "/other", &[])).unwrap().body.unwrap() {
        ResponseBody::Processed { handler, request_id } => {
            assert_eq!(handler, "custom");
            assert_eq!(request_id, 77);
        }
        other => panic!("unexpected body: {:?}", other),
    }
}

#[test]
fn protected_endpoints_ask_for_a_bearer_token() {
    let mut api = ApiService::new(8080);
    api.register_endpoint(endpoint(HttpMethod::GET, "/secret", "h", true)).unwrap();
    for headers in [
        vec![],
        vec![("Authorization", "Basic abc")],
        vec![("Authorization", "Bearer")],
        vec![("Authorization", "bearer abc")],
        vec![("authorization", "Bearer abc")],
        vec![("Authorization", "")],
    ] {
        match api.process_request(request(HttpMethod::GET, "/secret", &headers)).unwrap_err() {
            DreasError::Authentication(message) => {
                assert_eq!(message, "Missing or invalid authorization header")
            }
            other => panic!("unexpected error: {:?}", other),
        }
    }
    for headers in [vec![("Authorization", "Bearer abc")], vec![("Authorization", "Bearer ")]] {
        assert!(api.process_request(request(HttpMethod::GET, "/secret", &headers)).is_ok());
    }
    assert!(api
        .validate_authentication(&request(HttpMethod::GET, "/x", &[("Authorization", "Bearer é")]))
        .is_ok());
}
