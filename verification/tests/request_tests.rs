use lazy_swagger_tui::request::{build_preview_url, build_url_with_params};
use lazy_swagger_tui::strmap::StringMap;

fn map(pairs: &[(&str, &str)]) -> StringMap {
    let mut m = StringMap::new();
    for (k, v) in pairs {
        m.insert(k.to_string(), v.to_string());
    }
    m
}

#[test]
fn test_build_url_basic() {
    let url = build_url_with_params("http://localhost:5000", "/users", &StringMap::new(), &StringMap::new());
    assert_eq!(url.unwrap(), "http://localhost:5000/users");
}

#[test]
fn test_build_url_with_single_path_param() {
    let path_params = map(&[("id", "123")]);
    let url = build_url_with_params("http://localhost:5000", "/users/{id}", &path_params, &StringMap::new());
    assert_eq!(url.unwrap(), "http://localhost:5000/users/123");
}

#[test]
fn test_build_url_with_multiple_path_params() {
    let path_params = map(&[("userId", "42"), ("postId", "99")]);
    let url = build_url_with_params(
        "http://localhost:5000",
        "/users/{userId}/posts/{postId}",
        &path_params,
        &StringMap::new(),
    );
    assert_eq!(url.unwrap(), "http://localhost:5000/users/42/posts/99");
}

#[test]
fn test_build_url_with_single_query_param() {
    let query_params = map(&[("limit", "10")]);
    let url = build_url_with_params("http://localhost:5000", "/users", &StringMap::new(), &query_params);
    assert_eq!(url.unwrap(), "http://localhost:5000/users?limit=10");
}

#[test]
fn test_build_url_with_multiple_query_params() {
    let query_params = map(&[("skip", "20"), ("limit", "10")]);
    let url = build_url_with_params("http://localhost:5000", "/users", &StringMap::new(), &query_params).unwrap();
    assert!(
        url == "http://localhost:5000/users?skip=20&limit=10"
            || url == "http://localhost:5000/users?limit=10&skip=20"
    );
}

#[test]
fn test_build_url_with_path_and_query_params() {
    let path_params = map(&[("id", "123")]);
    let query_params = map(&[("include", "profile")]);
    let url = build_url_with_params("http://localhost:5000", "/users/{id}", &path_params, &query_params);
    assert_eq!(url.unwrap(), "http://localhost:5000/users/123?include=profile");
}

#[test]
fn test_build_url_empty_query_params_ignored() {
    let query_params = map(&[("limit", "10"), ("filter", "")]);
    let url = build_url_with_params("http://localhost:5000", "/users", &StringMap::new(), &query_params);
    assert_eq!(url.unwrap(), "http://localhost:5000/users?limit=10");
}

#[test]
fn test_build_url_with_trailing_slash_in_base() {
    let url = build_url_with_params("http://localhost:5000/", "/users", &StringMap::new(), &StringMap::new());
    assert_eq!(url.unwrap(), "http://localhost:5000/users");
}

#[test]
fn test_build_url_special_chars_in_query_params() {
    let query_params = map(&[("search", "hello world")]);
    let url = build_url_with_params("http://localhost:5000", "/users", &StringMap::new(), &query_params);
    assert_eq!(url.unwrap(), "http://localhost:5000/users?search=hello+world");
}

#[test]
fn test_build_url_path_param_not_in_template() {
    let path_params = map(&[("id", "123"), ("unused", "value")]);
    let url = build_url_with_params("http://localhost:5000", "/users/{id}", &path_params, &StringMap::new());
    assert_eq!(url.unwrap(), "http://localhost:5000/users/123");
}

#[test]
fn test_build_url_missing_path_param() {
    let url = build_url_with_params("http://localhost:5000", "/users/{id}", &StringMap::new(), &StringMap::new());
    assert_eq!(url.unwrap(), "http://localhost:5000/users/%7Bid%7D");
}

#[test]
fn test_build_url_invalid_base() {
    let url = build_url_with_params("not a valid url", "/users", &StringMap::new(), &StringMap::new());
    assert!(url.is_err());
    assert!(url.unwrap_err().contains("Invalid URL"));
}

#[test]
fn preview_url_substitutes_and_appends_query() {
    let path_params = map(&[("id", "7"), ("other", "")]);
    let query_params = map(&[("limit", "10"), ("skip", ""), ("q", "a b")]);
    let url = build_preview_url("/users/{id}/{other}", &path_params, &query_params);
    assert_eq!(url, "/users/7/{other}?limit=10&q=a b");
}

#[test]
fn preview_url_without_query_is_the_path() {
    let url = build_preview_url("/users/{id}", &StringMap::new(), &map(&[("x", "")]));
    assert_eq!(url, "/users/{id}");
}

#[test]
fn later_insert_replaces_value_in_place() {
    let mut m = map(&[("a", "1"), ("b", "2")]);
    m.insert("a".to_string(), "3".to_string());
    assert_eq!(m.len(), 2);
    assert_eq!(m.get("a").map(|s| s.as_str()), Some("3"));
    assert_eq!(m.entries()[0].0, "a");
}

#[test]
fn refused_urls_give_the_parser_message() {
    let mut query_params = StringMap::new();
    query_params.insert("q".to_string(), "x".to_string());
    assert_eq!(
        build_url_with_params("not a url", "/users", &StringMap::new(), &StringMap::new()).unwrap_err(),
        "Invalid URL: relative URL without a base"
    );
    assert_eq!(
        build_url_with_params("http://localhost:99999", "/users", &StringMap::new(), &query_params).unwrap_err(),
        "Invalid URL: invalid port number"
    );
    assert_eq!(
        build_url_with_params("http://:80", "/users", &StringMap::new(), &StringMap::new()).unwrap_err(),
        "Invalid URL: empty host"
    );
}
