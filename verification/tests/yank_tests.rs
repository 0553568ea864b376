use lazy_swagger_tui::yank::extract_json_value;

#[test]
fn test_extract_json_value_simple() {
    assert_eq!(extract_json_value("  \"access_token\": \"abc123\","), "abc123");
    assert_eq!(extract_json_value("  \"name\": \"John\""), "John");
}

#[test]
fn test_extract_json_value_number() {
    assert_eq!(extract_json_value("  \"age\": 30,"), "30");
    assert_eq!(extract_json_value("  \"count\": 123"), "123");
}

#[test]
fn test_extract_json_value_boolean() {
    assert_eq!(extract_json_value("  \"active\": true,"), "true");
    assert_eq!(extract_json_value("  \"enabled\": false"), "false");
}

#[test]
fn test_extract_json_value_no_colon() {
    assert_eq!(extract_json_value("  123"), "123");
    assert_eq!(extract_json_value("  {"), "");
}

#[test]
fn value_keeps_colons_after_the_first() {
    assert_eq!(extract_json_value("  \"url\": \"http://x:80\","), "http://x:80");
}

#[test]
fn closing_brackets_give_nothing() {
    assert_eq!(extract_json_value("  ],"), "");
    assert_eq!(extract_json_value("}"), "");
}
