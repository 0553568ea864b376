use lazy_swagger_tui::editor::KeyInput;
use lazy_swagger_tui::events::{typing_starts, handle_typed_text, EventHandler};
use lazy_swagger_tui::execution::{
    begin_request, can_execute_endpoint, failed_response, finish_request, http_method, received_response,
    HttpMethod,
};
use lazy_swagger_tui::groups::group_endpoints;
use lazy_swagger_tui::loading::{begin_fetch, fetch_failed, finish_fetch, startup_state, FetchFailure};
use lazy_swagger_tui::state::AppState;
use lazy_swagger_tui::types::{
    ApiEndpoint, DetailTab, InputMode, LoadingState, Operation, PanelFocus, Parameter, PathItem,
    RequestConfig, RequestEditMode, SwaggerSpec, UrlInputField, ViewMode,
};
use lazy_swagger_tui::utils::mask_token;
use lazy_swagger_tui::yank::yank_response_line;

fn param(name: &str, location: &str) -> Parameter {
    Parameter { name: name.to_string(), location: location.to_string(), required: Some(true), schema: None, description: None }
}

fn endpoint(method: &str, path: &str, tags: &[&str], params: Vec<Parameter>) -> ApiEndpoint {
    ApiEndpoint {
        method: method.to_string(),
        path: path.to_string(),
        summary: None,
        tags: tags.iter().map(|t| t.to_string()).collect(),
        parameters: params,
    }
}

fn loaded_state(view: ViewMode) -> AppState {
    let mut s = AppState::default();
    s.ui.view_mode = view;
    s.data.endpoints = vec![
        endpoint("GET", "/users", &["Users"], vec![]),
        endpoint("GET", "/users/{id}", &["Users"], vec![param("id", "path"), param("limit", "query")]),
        endpoint("POST", "/posts", &["Posts"], vec![]),
    ];
    s.data.grouped_endpoints = group_endpoints(&s.data.endpoints);
    s.data.loading_state = LoadingState::Complete;
    s
}

fn ch(c: char) -> KeyInput {
    KeyInput::Char { c, ctrl: false }
}

fn ctrl(c: char) -> KeyInput {
    KeyInput::Char { c, ctrl: true }
}

fn press(h: &mut EventHandler, s: &mut AppState, k: KeyInput) -> lazy_swagger_tui::events::KeyOutcome {
    h.handle_key(k, s, Some("http://localhost:5000".to_string()), Some("http://localhost:5000/swagger.json".to_string()))
}

#[test]
fn q_quits_unless_a_parameter_is_edited() {
    let mut s = loaded_state(ViewMode::Flat);
    let mut h = EventHandler::new();
    s.request.edit_mode = RequestEditMode::Editing("id".to_string());
    press(&mut h, &mut s, ch('q'));
    assert!(!h.should_quit);
    assert_eq!(s.request.param_edit_buffer, "q");

    s.request.edit_mode = RequestEditMode::Viewing;
    press(&mut h, &mut s, ch('q'));
    assert!(h.should_quit);
}

#[test]
fn j_and_k_move_through_the_flat_list() {
    let mut s = loaded_state(ViewMode::Flat);
    let mut h = EventHandler::new();
    press(&mut h, &mut s, ch('j'));
    assert_eq!(h.selected_index, 1);
    // Selecting an endpoint gives it a configuration from its parameters.
    assert!(s.request.configs.contains_key("/users/{id}"));
    let cfg = s.request.configs.get("/users/{id}").unwrap();
    assert_eq!(cfg.path_params.get("id").map(|v| v.as_str()), Some(""));
    press(&mut h, &mut s, ch('j'));
    press(&mut h, &mut s, ch('j'));
    assert_eq!(h.selected_index, 2);
    press(&mut h, &mut s, ch('k'));
    press(&mut h, &mut s, KeyInput::Up);
    press(&mut h, &mut s, KeyInput::Up);
    assert_eq!(h.selected_index, 0);
}

#[test]
fn space_on_a_group_header_toggles_it_and_keeps_the_selection_in_the_list() {
    let mut s = loaded_state(ViewMode::Grouped);
    let mut h = EventHandler::new();
    // Groups are ordered by name: Posts, Users.
    assert_eq!(s.get_render_items().len(), 2);
    let out = press(&mut h, &mut s, ch(' '));
    assert!(out.run.is_none());
    assert!(s.ui.expanded_groups.contains(&"Posts".to_string()));
    assert_eq!(s.get_render_items().len(), 3);

    h.selected_index = 2;
    press(&mut h, &mut s, ch(' '));
    assert_eq!(s.get_render_items().len(), 5);

    h.selected_index = 0;
    press(&mut h, &mut s, ch(' '));
    assert_eq!(s.get_render_items().len(), 4);
    h.selected_index = 3;
    // Collapse "Users" (now at row 1) with the selection past the shortened list.
    h.selected_index = 1;
    press(&mut h, &mut s, ch(' '));
    assert_eq!(s.get_render_items().len(), 2);
    assert!(h.selected_index < 2);
}

#[test]
fn space_on_an_endpoint_checks_its_path_parameters() {
    let mut s = loaded_state(ViewMode::Flat);
    let mut h = EventHandler::new();
    h.selected_index = 1;
    let out = press(&mut h, &mut s, ch(' '));
    assert!(out.run.is_none());
    let r = s.request.current_response.as_ref().unwrap();
    assert!(r.is_error);
    assert_eq!(r.error_message.as_deref(), Some("Please configure path parameter(s): id"));

    let mut cfg = RequestConfig::default();
    cfg.path_params.insert("id".to_string(), "".to_string());
    *s.request.configs.get_or_insert("/users/{id}".to_string(), RequestConfig::default()) = cfg;
    press(&mut h, &mut s, ch(' '));
    let r = s.request.current_response.as_ref().unwrap();
    assert_eq!(r.error_message.as_deref(), Some("Missing required path parameter(s): id"));

    s.request.configs.get_or_insert("/users/{id}".to_string(), RequestConfig::default()).path_params.insert("id".to_string(), "7".to_string());
    let out = press(&mut h, &mut s, ch(' '));
    assert_eq!(out.run.map(|e| e.path), Some("/users/{id}".to_string()));
}

#[test]
fn space_without_base_url_does_nothing() {
    let mut s = loaded_state(ViewMode::Flat);
    let mut h = EventHandler::new();
    let out = h.handle_key(ch(' '), &mut s, None, None);
    assert!(out.run.is_none());
    assert!(s.request.current_response.is_none());
}

#[test]
fn can_execute_lists_every_missing_parameter() {
    let e = endpoint("GET", "/a/{x}/{y}", &[], vec![param("x", "path"), param("y", "path")]);
    assert_eq!(can_execute_endpoint(&e, None), Err("Please configure path parameter(s): x, y".to_string()));
    let mut cfg = RequestConfig::default();
    cfg.path_params.insert("y".to_string(), "1".to_string());
    assert_eq!(can_execute_endpoint(&e, Some(&cfg)), Err("Missing required path parameter(s): x".to_string()));
    cfg.path_params.insert("x".to_string(), "2".to_string());
    assert_eq!(can_execute_endpoint(&e, Some(&cfg)), Ok(()));
    let plain = endpoint("GET", "/a", &[], vec![]);
    assert_eq!(can_execute_endpoint(&plain, None), Ok(()));
}

#[test]
fn search_filters_and_esc_clears() {
    let mut s = loaded_state(ViewMode::Flat);
    let mut h = EventHandler::new();
    press(&mut h, &mut s, ch('/'));
    assert_eq!(s.input.mode, InputMode::Searching);
    for c in "POST".chars() {
        press(&mut h, &mut s, ch(c));
    }
    assert_eq!(s.search.query, "POST");
    assert_eq!(s.search.filtered_endpoints.len(), 1);
    assert_eq!(s.search.filtered_endpoints[0].path, "/posts");
    press(&mut h, &mut s, KeyInput::Backspace);
    assert_eq!(s.search.query, "POS");
    assert_eq!(s.search.filtered_endpoints.len(), 1);
    press(&mut h, &mut s, KeyInput::Enter);
    assert_eq!(s.input.mode, InputMode::Normal);
    assert_eq!(s.search.query, "POS");

    press(&mut h, &mut s, ch('/'));
    press(&mut h, &mut s, KeyInput::Esc);
    assert_eq!(s.input.mode, InputMode::Normal);
    assert_eq!(s.search.query, "");
    assert_eq!(s.search.filtered_endpoints.len(), 0);
}

#[test]
fn search_matches_tags_in_any_case() {
    let mut s = loaded_state(ViewMode::Flat);
    let mut h = EventHandler::new();
    press(&mut h, &mut s, ch('/'));
    for c in "users".chars() {
        press(&mut h, &mut s, ch(c));
    }
    assert_eq!(s.search.filtered_endpoints.len(), 2);
    press(&mut h, &mut s, ctrl('u'));
    assert_eq!(s.search.query, "");
}

#[test]
fn url_dialog_submits_trimmed_valid_urls() {
    let mut s = loaded_state(ViewMode::Flat);
    let mut h = EventHandler::new();
    press(&mut h, &mut s, ch(','));
    assert_eq!(s.input.mode, InputMode::EnteringUrl);
    assert_eq!(s.input.url_input, "http://localhost:5000/swagger.json");
    press(&mut h, &mut s, ctrl('w'));
    assert_eq!(s.input.url_input, "http://localhost:5000/swagger");
    press(&mut h, &mut s, ctrl('l'));
    assert_eq!(s.input.url_input, "");
    handle_typed_text("  ftp://x  ", &mut s);
    let out = press(&mut h, &mut s, KeyInput::Enter);
    assert!(out.submitted.is_none());
    assert_eq!(s.input.mode, InputMode::EnteringUrl);

    press(&mut h, &mut s, ctrl('l'));
    handle_typed_text(" https://api.example.com/doc.json ", &mut s);
    press(&mut h, &mut s, KeyInput::Tab);
    assert_eq!(s.input.active_url_field, UrlInputField::BaseUrl);
    press(&mut h, &mut s, ctrl('l'));
    let out = press(&mut h, &mut s, KeyInput::Enter);
    let sub = out.submitted.unwrap();
    assert_eq!(sub.swagger_url, "https://api.example.com/doc.json");
    assert_eq!(sub.base_url, None);
    assert_eq!(s.input.mode, InputMode::Normal);
    assert_eq!(s.input.url_input, "");
}

#[test]
fn token_dialog_stores_trimmed_token_and_clearing_asks_first() {
    let mut s = loaded_state(ViewMode::Flat);
    let mut h = EventHandler::new();
    press(&mut h, &mut s, ch('a'));
    assert_eq!(s.input.mode, InputMode::EnteringToken);
    assert!(typing_starts(s.input.mode, ch('x')));
    handle_typed_text("  abc.def-ghi  ", &mut s);
    press(&mut h, &mut s, ctrl('w'));
    assert_eq!(s.input.token_input, "  abc.def-ghi ");
    press(&mut h, &mut s, ctrl('w'));
    press(&mut h, &mut s, ctrl('w'));
    assert_eq!(s.input.token_input, "  abc.def");
    press(&mut h, &mut s, KeyInput::Enter);
    assert_eq!(s.request.auth.token.as_deref(), Some("abc.def"));
    assert_eq!(s.input.mode, InputMode::Normal);

    press(&mut h, &mut s, ch('A'));
    assert_eq!(s.input.mode, InputMode::ConfirmClearToken);
    press(&mut h, &mut s, ch('n'));
    assert_eq!(s.request.auth.token.as_deref(), Some("abc.def"));
    press(&mut h, &mut s, ch('A'));
    press(&mut h, &mut s, ch('Y'));
    assert!(s.request.auth.token.is_none());
    assert_eq!(s.input.mode, InputMode::Normal);
}

#[test]
fn parameter_editing_round_trip() {
    let mut s = loaded_state(ViewMode::Flat);
    let mut h = EventHandler::new();
    press(&mut h, &mut s, ch('j'));
    press(&mut h, &mut s, ch('2'));
    press(&mut h, &mut s, KeyInput::Tab);
    assert_eq!(s.ui.panel_focus, PanelFocus::Details);
    assert_eq!(s.ui.active_detail_tab, DetailTab::Request);
    press(&mut h, &mut s, ch('e'));
    assert!(matches!(&s.request.edit_mode, RequestEditMode::Editing(n) if n == "id"));
    for c in "42".chars() {
        press(&mut h, &mut s, ch(c));
    }
    press(&mut h, &mut s, KeyInput::Enter);
    assert!(matches!(s.request.edit_mode, RequestEditMode::Viewing));
    assert_eq!(s.request.configs.get("/users/{id}").unwrap().path_params.get("id").map(|v| v.as_str()), Some("42"));

    // The second parameter is the query parameter.
    press(&mut h, &mut s, ch('j'));
    assert_eq!(s.ui.selected_param_index, 1);
    press(&mut h, &mut s, ch('e'));
    for c in "10".chars() {
        press(&mut h, &mut s, ch(c));
    }
    press(&mut h, &mut s, KeyInput::Esc);
    assert_eq!(s.request.configs.get("/users/{id}").unwrap().query_params.get("limit").map(|v| v.as_str()), Some(""));
}

#[test]
fn body_editor_saves_formatted_json_or_reports_the_error() {
    let mut s = loaded_state(ViewMode::Flat);
    let mut h = EventHandler::new();
    h.selected_index = 2;
    s.ui.panel_focus = PanelFocus::Details;
    s.ui.active_detail_tab = DetailTab::Request;
    press(&mut h, &mut s, ch('b'));
    assert_eq!(s.input.mode, InputMode::EnteringBody);
    assert_eq!(s.input.body_editor.content(), "{}");

    press(&mut h, &mut s, ctrl('l'));
    handle_typed_text("{\"a\":", &mut s);
    press(&mut h, &mut s, KeyInput::Enter);
    assert!(s.input.body_validation_error.as_deref().unwrap().starts_with("Invalid JSON: "));
    assert_eq!(s.input.mode, InputMode::EnteringBody);

    handle_typed_text("1}", &mut s);
    assert!(s.input.body_validation_error.is_none());
    press(&mut h, &mut s, KeyInput::Enter);
    assert_eq!(s.input.mode, InputMode::Normal);
    assert_eq!(s.request.configs.get("/posts").unwrap().body.as_deref(), Some("{\n  \"a\": 1\n}"));
}

#[test]
fn begin_and_finish_request() {
    let mut s = loaded_state(ViewMode::Flat);
    let e = s.data.endpoints[2].clone();
    s.request.auth.set_token("t0k".to_string());
    let plan = begin_request(&mut s, &e, "http://localhost:5000/").unwrap();
    assert_eq!(plan.url, "http://localhost:5000/posts");
    assert_eq!(plan.method, HttpMethod::Post);
    assert!(plan.json_body);
    assert_eq!(plan.bearer_token.as_deref(), Some("t0k"));
    assert_eq!(s.request.executing_endpoint.as_deref(), Some("/posts"));

    s.ui.response_scroll = 7;
    finish_request(&mut s, received_response(201, None, vec![("X-Id".to_string(), "9".to_string())], Ok("{}".to_string()), 12));
    assert!(s.request.executing_endpoint.is_none());
    assert_eq!(s.ui.response_scroll, 0);
    let r = s.request.current_response.as_ref().unwrap();
    assert_eq!(r.status, 201);
    assert_eq!(r.status_text, "Unknown");
    assert_eq!(r.headers.get("x-id").map(|v| v.as_str()), Some("9"));
    assert_eq!(r.duration_ms, 12);

    let bad = begin_request(&mut s, &e, "not a url");
    assert_eq!(bad.unwrap_err(), "Failed to build URL: Invalid URL: relative URL without a base");
    assert!(s.request.executing_endpoint.is_none());
    assert!(s.request.current_response.as_ref().unwrap().is_error);
}

#[test]
fn responses_without_reply_or_body_are_failures() {
    let r = failed_response("connection refused", 3);
    assert!(r.is_error);
    assert_eq!(r.error_message.as_deref(), Some("Request failed: connection refused"));
    let r = received_response(200, Some("OK".to_string()), vec![], Err("eof".to_string()), 4);
    assert!(r.is_error);
    assert_eq!(r.status, 0);
    assert_eq!(r.error_message.as_deref(), Some("Failed to read response body: eof"));
}

#[test]
fn method_names_are_read_in_any_case() {
    assert_eq!(http_method("get"), HttpMethod::Get);
    assert_eq!(http_method("Delete"), HttpMethod::Delete);
    assert_eq!(http_method("patch"), HttpMethod::Patch);
    assert_eq!(http_method("OPTIONS"), HttpMethod::Get);
}

#[test]
fn yank_copies_the_value_of_the_selected_body_line() {
    let mut s = loaded_state(ViewMode::Flat);
    s.request.current_response =
        Some(received_response(200, Some("OK".to_string()), vec![], Ok("{\"token\":\"abc\",\"n\":1}".to_string()), 1));
    s.ui.response_selected_line = 1;
    assert_eq!(yank_response_line(&s), None);
    // The body is pretty-printed with its keys in order: "n" comes first.
    s.ui.response_selected_line = 3;
    assert_eq!(yank_response_line(&s), Some("1".to_string()));
    s.ui.response_selected_line = 4;
    assert_eq!(yank_response_line(&s), Some("abc".to_string()));
    s.ui.response_selected_line = 6;
    assert_eq!(yank_response_line(&s), None);
}

#[test]
fn response_lines_move_within_the_body() {
    let mut s = loaded_state(ViewMode::Flat);
    let mut h = EventHandler::new();
    s.ui.panel_focus = PanelFocus::Details;
    s.ui.active_detail_tab = DetailTab::Response;
    s.request.current_response = Some(received_response(200, None, vec![], Ok("a\nb".to_string()), 1));
    for _ in 0..10 {
        press(&mut h, &mut s, ch('j'));
    }
    assert_eq!(s.ui.response_selected_line, 3);
    press(&mut h, &mut s, ch('k'));
    assert_eq!(s.ui.response_selected_line, 2);
}

#[test]
fn retry_only_after_a_failed_load() {
    let mut s = loaded_state(ViewMode::Flat);
    let mut h = EventHandler::new();
    let out = press(&mut h, &mut s, ctrl('r'));
    assert!(!out.fetch);
    fetch_failed(&mut s, FetchFailure::Network, "timeout");
    assert!(matches!(&s.data.loading_state, LoadingState::Error(m) if m == "Network error: timeout"));
    let out = press(&mut h, &mut s, ctrl('r'));
    assert!(out.fetch);
    assert_eq!(s.data.retry_count, 1);
}

#[test]
fn loading_a_document() {
    let mut s = startup_state(false);
    assert_eq!(s.input.mode, InputMode::EnteringUrl);
    assert_eq!(startup_state(true).input.mode, InputMode::Normal);
    begin_fetch(&mut s);
    assert!(matches!(s.data.loading_state, LoadingState::Fetching));
    s.data.retry_count = 2;
    let op = Operation { summary: None, tags: None, parameters: None };
    let spec = SwaggerSpec {
        paths: vec![("/x".to_string(), PathItem { get: Some(op), post: None, put: None, delete: None, patch: None })],
    };
    finish_fetch(&mut s, spec);
    assert!(matches!(s.data.loading_state, LoadingState::Complete));
    assert_eq!(s.data.retry_count, 0);
    assert_eq!(s.data.endpoints.len(), 1);
    // An endpoint without tags goes under "Other".
    assert_eq!(s.data.grouped_endpoints.groups()[0].name, "Other");
}

#[test]
fn masking_tokens() {
    assert_eq!(mask_token("short"), "●●●●●");
    assert_eq!(mask_token("abcdefghijklmnopqrstuvwxyz"), "abcdefg...uvwxyz");
    assert_eq!(mask_token("abcdefghijklmno"), "●●●●●●●●●●●●●●●");
}

#[test]
fn a_saved_body_is_what_the_editor_reopens_with() {
    let mut s = loaded_state(ViewMode::Flat);
    let mut h = EventHandler::new();
    h.selected_index = 2;
    s.ui.panel_focus = PanelFocus::Details;
    s.ui.active_detail_tab = DetailTab::Request;
    press(&mut h, &mut s, ch('b'));
    press(&mut h, &mut s, ctrl('l'));
    handle_typed_text("[1,2]", &mut s);
    press(&mut h, &mut s, KeyInput::Enter);
    assert_eq!(s.input.mode, InputMode::Normal);
    press(&mut h, &mut s, ch('b'));
    assert_eq!(s.input.mode, InputMode::EnteringBody);
    assert_eq!(s.input.body_editor.content(), "[\n  1,\n  2\n]");

    // A blank body is not valid JSON: it is refused and the editor stays open.
    press(&mut h, &mut s, ctrl('l'));
    press(&mut h, &mut s, KeyInput::Enter);
    assert_eq!(s.input.mode, InputMode::EnteringBody);
    assert!(s.input.body_validation_error.is_some());
}
