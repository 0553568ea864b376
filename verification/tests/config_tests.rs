use lazy_swagger_tui::config::validate_url;

#[test]
fn test_validate_url_valid_http() {
    assert!(validate_url("http://localhost:5000").is_ok());
}

#[test]
fn test_validate_url_valid_https() {
    assert!(validate_url("https://api.example.com/swagger/v1/swagger.json").is_ok());
}

#[test]
fn test_validate_url_empty() {
    let result = validate_url("");
    assert!(result.is_err());
    assert_eq!(result.unwrap_err(), "URL cannot be empty");
}

#[test]
fn test_validate_url_no_protocol() {
    let result = validate_url("localhost:5000");
    assert!(result.is_err());
    assert_eq!(result.unwrap_err(), "URL must start with http:// or https://");
}

#[test]
fn test_validate_url_invalid_protocol() {
    let result = validate_url("ftp://example.com");
    assert!(result.is_err());
    assert_eq!(result.unwrap_err(), "URL must start with http:// or https://");
}
