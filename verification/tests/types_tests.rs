use lazy_swagger_tui::types::{ApiEndpoint, Parameter, RequestConfig};

fn create_param(name: &str, location: &str, required: bool) -> Parameter {
    Parameter {
        name: name.to_string(),
        location: location.to_string(),
        required: Some(required),
        schema: None,
        description: None,
    }
}

fn endpoint(path: &str, parameters: Vec<Parameter>) -> ApiEndpoint {
    ApiEndpoint { method: "GET".to_string(), path: path.to_string(), summary: None, tags: vec![], parameters }
}

#[test]
fn test_path_params_filter() {
    let endpoint = endpoint("/users/{id}", vec![create_param("id", "path", true), create_param("limit", "query", false)]);

    let path_params = endpoint.path_params();
    assert_eq!(path_params.len(), 1);
    assert_eq!(path_params[0].name, "id");
    assert_eq!(path_params[0].location, "path");
}

#[test]
fn test_query_params_filter() {
    let endpoint = endpoint(
        "/users",
        vec![create_param("id", "path", true), create_param("limit", "query", false), create_param("skip", "query", false)],
    );

    let query_params = endpoint.query_params();
    assert_eq!(query_params.len(), 2);
    assert!(query_params.iter().any(|p| p.name == "limit"));
    assert!(query_params.iter().any(|p| p.name == "skip"));
}

#[test]
fn test_has_all_required_path_params_success() {
    let endpoint = endpoint("/users/{id}", vec![create_param("id", "path", true)]);

    let mut config = RequestConfig::default();
    config.path_params.insert("id".to_string(), "123".to_string());

    assert!(endpoint.has_all_required_path_params(&config));
}

#[test]
fn test_has_all_required_path_params_missing() {
    let endpoint = endpoint("/users/{id}", vec![create_param("id", "path", true)]);

    let config = RequestConfig::default();

    assert!(!endpoint.has_all_required_path_params(&config));
}

#[test]
fn test_has_all_required_path_params_empty_value() {
    let endpoint = endpoint("/users/{id}", vec![create_param("id", "path", true)]);

    let mut config = RequestConfig::default();
    config.path_params.insert("id".to_string(), "".to_string());

    assert!(!endpoint.has_all_required_path_params(&config));
}

#[test]
fn test_has_all_required_path_params_multiple() {
    let endpoint = endpoint(
        "/users/{userId}/posts/{postId}",
        vec![create_param("userId", "path", true), create_param("postId", "path", true)],
    );

    let mut config = RequestConfig::default();
    config.path_params.insert("userId".to_string(), "42".to_string());
    config.path_params.insert("postId".to_string(), "99".to_string());

    assert!(endpoint.has_all_required_path_params(&config));
}

#[test]
fn test_missing_path_params_empty() {
    let endpoint = endpoint("/users/{id}", vec![create_param("id", "path", true)]);

    let mut config = RequestConfig::default();
    config.path_params.insert("id".to_string(), "123".to_string());

    let missing = endpoint.missing_path_params(&config);
    assert_eq!(missing.len(), 0);
}

#[test]
fn test_missing_path_params_single() {
    let endpoint = endpoint("/users/{id}", vec![create_param("id", "path", true)]);

    let config = RequestConfig::default();

    let missing = endpoint.missing_path_params(&config);
    assert_eq!(missing.len(), 1);
    assert_eq!(missing[0], "id");
}

#[test]
fn test_missing_path_params_multiple() {
    let endpoint = endpoint(
        "/users/{userId}/posts/{postId}",
        vec![create_param("userId", "path", true), create_param("postId", "path", true)],
    );

    let mut config = RequestConfig::default();
    config.path_params.insert("userId".to_string(), "42".to_string());

    let missing = endpoint.missing_path_params(&config);
    assert_eq!(missing.len(), 1);
    assert_eq!(missing[0], "postId");
}

#[test]
fn test_missing_path_params_empty_value() {
    let endpoint = endpoint("/users/{id}", vec![create_param("id", "path", true)]);

    let mut config = RequestConfig::default();
    config.path_params.insert("id".to_string(), "".to_string());

    let missing = endpoint.missing_path_params(&config);
    assert_eq!(missing.len(), 1);
    assert_eq!(missing[0], "id");
}

#[test]
fn test_request_config_default() {
    let config = RequestConfig::default();
    assert_eq!(config.path_params.len(), 0);
    assert_eq!(config.query_params.len(), 0);
}

#[test]
fn supports_body_ignores_case() {
    let mut e = endpoint("/x", vec![]);
    e.method = "post".to_string();
    assert!(e.supports_body());
    e.method = "Patch".to_string();
    assert!(e.supports_body());
    e.method = "GET".to_string();
    assert!(!e.supports_body());
    e.method = "DELETE".to_string();
    assert!(!e.supports_body());
}

#[test]
fn get_param_value_prefers_path_values() {
    let mut config = RequestConfig::default();
    config.query_params.insert("id".to_string(), "q".to_string());
    assert_eq!(config.get_param_value("id"), Some("q"));
    config.path_params.insert("id".to_string(), "p".to_string());
    assert_eq!(config.get_param_value("id"), Some("p"));
    assert_eq!(config.get_param_value("other"), None);
}
