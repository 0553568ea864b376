use lazy_swagger_tui::swagger::parse_swagger_spec;
use lazy_swagger_tui::types::{Operation, Parameter, PathItem, SwaggerSpec};

fn create_test_operation(summary: &str, tags: Vec<String>) -> Operation {
    Operation { summary: Some(summary.to_string()), tags: Some(tags), parameters: None }
}

fn only_get(op: Operation) -> PathItem {
    PathItem { get: Some(op), post: None, put: None, delete: None, patch: None }
}

#[test]
fn test_parse_empty_spec() {
    let spec = SwaggerSpec { paths: Vec::new() };
    let endpoints = parse_swagger_spec(spec);
    assert_eq!(endpoints.len(), 0);
}

#[test]
fn test_parse_single_get_endpoint() {
    let paths = vec![(
        "/users".to_string(),
        only_get(create_test_operation("Get all users", vec!["Users".to_string()])),
    )];

    let endpoints = parse_swagger_spec(SwaggerSpec { paths });

    assert_eq!(endpoints.len(), 1);
    assert_eq!(endpoints[0].method, "GET");
    assert_eq!(endpoints[0].path, "/users");
    assert_eq!(endpoints[0].summary, Some("Get all users".to_string()));
    assert_eq!(endpoints[0].tags, vec!["Users".to_string()]);
}

#[test]
fn test_parse_all_http_methods() {
    let paths = vec![(
        "/users".to_string(),
        PathItem {
            get: Some(create_test_operation("Get users", vec![])),
            post: Some(create_test_operation("Create user", vec![])),
            put: Some(create_test_operation("Update user", vec![])),
            delete: Some(create_test_operation("Delete user", vec![])),
            patch: Some(create_test_operation("Patch user", vec![])),
        },
    )];

    let endpoints = parse_swagger_spec(SwaggerSpec { paths });

    assert_eq!(endpoints.len(), 5);

    let methods: Vec<String> = endpoints.iter().map(|e| e.method.clone()).collect();
    assert!(methods.contains(&"GET".to_string()));
    assert!(methods.contains(&"POST".to_string()));
    assert!(methods.contains(&"PUT".to_string()));
    assert!(methods.contains(&"DELETE".to_string()));
    assert!(methods.contains(&"PATCH".to_string()));
}

#[test]
fn test_parse_multiple_paths() {
    let paths = vec![
        ("/users".to_string(), only_get(create_test_operation("Get users", vec!["Users".to_string()]))),
        (
            "/posts".to_string(),
            PathItem {
                get: Some(create_test_operation("Get posts", vec!["Posts".to_string()])),
                post: Some(create_test_operation("Create post", vec!["Posts".to_string()])),
                put: None,
                delete: None,
                patch: None,
            },
        ),
    ];

    let endpoints = parse_swagger_spec(SwaggerSpec { paths });

    assert_eq!(endpoints.len(), 3);

    let paths_found: Vec<&str> = endpoints.iter().map(|e| e.path.as_str()).collect();
    assert!(paths_found.contains(&"/users"));
    assert!(paths_found.contains(&"/posts"));
}

#[test]
fn test_parse_operation_without_summary() {
    let paths = vec![(
        "/test".to_string(),
        only_get(Operation { summary: None, tags: Some(vec!["Test".to_string()]), parameters: None }),
    )];

    let endpoints = parse_swagger_spec(SwaggerSpec { paths });

    assert_eq!(endpoints.len(), 1);
    assert_eq!(endpoints[0].summary, None);
}

#[test]
fn test_parse_operation_without_tags() {
    let paths = vec![(
        "/test".to_string(),
        only_get(Operation { summary: Some("Test endpoint".to_string()), tags: None, parameters: None }),
    )];

    let endpoints = parse_swagger_spec(SwaggerSpec { paths });

    assert_eq!(endpoints.len(), 1);
    assert_eq!(endpoints[0].tags.len(), 0);
}

#[test]
fn test_parse_with_parameters() {
    let paths = vec![(
        "/users/{id}".to_string(),
        only_get(Operation {
            summary: Some("Get user by ID".to_string()),
            tags: Some(vec!["Users".to_string()]),
            parameters: Some(vec![Parameter {
                name: "id".to_string(),
                location: "path".to_string(),
                required: Some(true),
                schema: None,
                description: Some("User ID".to_string()),
            }]),
        }),
    )];

    let endpoints = parse_swagger_spec(SwaggerSpec { paths });

    assert_eq!(endpoints.len(), 1);
    assert_eq!(endpoints[0].parameters.len(), 1);
    assert_eq!(endpoints[0].parameters[0].name, "id");
    assert_eq!(endpoints[0].parameters[0].location, "path");
}

#[test]
fn test_parse_empty_operations_ignored() {
    let paths = vec![(
        "/users".to_string(),
        PathItem { get: None, post: None, put: None, delete: None, patch: None },
    )];

    let endpoints = parse_swagger_spec(SwaggerSpec { paths });

    assert_eq!(endpoints.len(), 0);
}

#[test]
fn test_parse_multiple_tags() {
    let paths = vec![(
        "/admin/users".to_string(),
        only_get(create_test_operation("Admin users", vec!["Admin".to_string(), "Users".to_string()])),
    )];

    let endpoints = parse_swagger_spec(SwaggerSpec { paths });

    assert_eq!(endpoints.len(), 1);
    assert_eq!(endpoints[0].tags.len(), 2);
    assert!(endpoints[0].tags.contains(&"Admin".to_string()));
    assert!(endpoints[0].tags.contains(&"Users".to_string()));
}

#[test]
fn operations_of_a_path_come_in_method_order() {
    let paths = vec![(
        "/x".to_string(),
        PathItem {
            get: None,
            post: Some(create_test_operation("p", vec![])),
            put: None,
            delete: Some(create_test_operation("d", vec![])),
            patch: Some(create_test_operation("a", vec![])),
        },
    )];
    let endpoints = parse_swagger_spec(SwaggerSpec { paths });
    let methods: Vec<&str> = endpoints.iter().map(|e| e.method.as_str()).collect();
    assert_eq!(methods, vec!["POST", "DELETE", "PATCH"]);
}
