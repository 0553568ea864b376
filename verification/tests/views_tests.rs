use lazy_swagger_tui::execution::received_response;
use lazy_swagger_tui::groups::group_endpoints;
use lazy_swagger_tui::state::{AppState, AuthState};
use lazy_swagger_tui::tab_views::{build_param_line, details_view, headers_tab_lines, request_tab_lines, response_tab_lines};
use lazy_swagger_tui::types::{
    ApiEndpoint, DetailTab, InputMode, LoadingState, Parameter, ParameterSchema, PanelFocus, RequestConfig,
    RequestEditMode, ViewMode,
};
use lazy_swagger_tui::views::{
    endpoint_tab_lines, error_text, flat_list_rows, footer_text, get_auth_status_text, get_method_color,
    grouped_list_rows, header_text, loading_text, search_bar, tab_bar_spans, MethodColor, StyledSpan, Tone,
};

fn text(line: &[StyledSpan]) -> String {
    line.iter().map(|s| s.text.as_str()).collect()
}

fn texts(lines: &[Vec<StyledSpan>]) -> Vec<String> {
    lines.iter().map(|l| text(l)).collect()
}

fn param(name: &str, location: &str, required: bool, ty: Option<&str>, format: Option<&str>) -> Parameter {
    Parameter {
        name: name.to_string(),
        location: location.to_string(),
        required: Some(required),
        schema: Some(ParameterSchema {
            param_type: ty.map(|t| t.to_string()),
            format: format.map(|f| f.to_string()),
            default: None,
        }),
        description: None,
    }
}

fn state_with(endpoints: Vec<ApiEndpoint>) -> AppState {
    let mut s = AppState::default();
    s.ui.view_mode = ViewMode::Flat;
    s.data.endpoints = endpoints;
    s.data.grouped_endpoints = group_endpoints(&s.data.endpoints);
    s.data.loading_state = LoadingState::Complete;
    s
}

fn user_endpoint() -> ApiEndpoint {
    ApiEndpoint {
        method: "GET".to_string(),
        path: "/users/{id}".to_string(),
        summary: Some("One user".to_string()),
        tags: vec!["Users".to_string(), "Admin".to_string()],
        parameters: vec![
            param("id", "path", true, Some("integer"), Some("int32")),
            param("limit", "query", false, None, None),
        ],
    }
}

#[test]
fn method_colours() {
    assert_eq!(get_method_color("GET"), MethodColor::Green);
    assert_eq!(get_method_color("POST"), MethodColor::Blue);
    assert_eq!(get_method_color("PUT"), MethodColor::Yellow);
    assert_eq!(get_method_color("DELETE"), MethodColor::Red);
    assert_eq!(get_method_color("PATCH"), MethodColor::Cyan);
    assert_eq!(get_method_color("get"), MethodColor::Reset);
}

#[test]
fn header_and_auth_status() {
    let mut auth = AuthState::new();
    assert_eq!(get_auth_status_text(&auth), "🔓 Not authenticated | 'a':set token");
    let h = header_text(&None, &LoadingState::Complete, 3, &auth);
    assert_eq!(h, "lazy swagger tui - No URL configured [3 endpoints loaded] | 🔓 Not authenticated | 'a':set token");
    auth.set_token("abcdefghijklmnopqrstuvwxyz".to_string());
    assert_eq!(get_auth_status_text(&auth), "🔒 abcdefg...uvwxyz | 'a':edit 'A':clear");
    let h = header_text(&Some("http://x/doc".to_string()), &LoadingState::Fetching, 0, &auth);
    assert!(h.starts_with("lazy swagger tui - http://x/doc [Fetching...] | 🔒"));
}

#[test]
fn search_bar_and_footer() {
    let mut s = state_with(vec![user_endpoint()]);
    let b = search_bar(&s);
    assert_eq!(b.title, " Search (/) ");
    assert_eq!(b.border, Tone::Muted);
    s.input.mode = InputMode::Searching;
    s.search.query = "us".to_string();
    s.update_filtered_endpoints();
    let b = search_bar(&s);
    assert_eq!(b.title, " Search [1/1] ");
    assert_eq!(b.text, "us_");
    assert_eq!(b.border, Tone::Cyan);

    assert_eq!(footer_text(&s), "Tab:Panel j/k/↑/↓:Nav Space:Execute/Toggle | g:Group ,:URL a:Auth q:Quit");
    s.ui.panel_focus = PanelFocus::Details;
    s.ui.active_detail_tab = DetailTab::Response;
    s.request.current_response = Some(received_response(200, None, vec![], Ok(String::new()), 0));
    assert!(footer_text(&s).ends_with(" | y:Yank"));
}

#[test]
fn loading_and_error_messages() {
    assert_eq!(loading_text(&LoadingState::Parsing, 1), "⠙ Parsing endpoints\n\nPlease wait...");
    assert_eq!(error_text("boom", 0), "❌ boom\n\nPress [R] to retry\nPress [F5] to refresh");
    assert_eq!(
        error_text("boom", 2),
        "❌ boom\n\nRetry attempt: 2\n\nPress [R] to retry\nPress [F5] to refresh"
    );
}

#[test]
fn list_rows() {
    let mut s = state_with(vec![user_endpoint()]);
    let rows = flat_list_rows(&s);
    assert_eq!(texts(&rows), vec!["GET     /users/{id}".to_string()]);
    assert_eq!(rows[0][0].tone, Tone::Method(MethodColor::Green));
    s.ui.view_mode = ViewMode::Grouped;
    s.ui.expanded_groups.push("Users".to_string());
    let rows = grouped_list_rows(&s);
    assert_eq!(
        texts(&rows),
        vec!["▶ Admin (1)".to_string(), "▼ Users (1)".to_string(), "  GET     /users/{id}".to_string()]
    );
}

#[test]
fn tab_bar_marks_the_active_tab_and_a_running_request() {
    let mut s = state_with(vec![]);
    s.ui.active_detail_tab = DetailTab::Headers;
    s.request.executing_endpoint = Some("/x".to_string());
    let spans = tab_bar_spans(&s);
    assert_eq!(text(&spans), "[ Endpoint ] [ Request ] [ Headers ] [ Response (...) ]");
    assert_eq!(spans[5].tone, Tone::CyanBold);
    assert_eq!(spans[1].tone, Tone::Plain);
}

#[test]
fn endpoint_tab() {
    let lines = endpoint_tab_lines(&user_endpoint());
    assert_eq!(
        texts(&lines),
        vec![
            "GET /users/{id}".to_string(),
            "".to_string(),
            "Summary: One user".to_string(),
            "Tags: Users, Admin".to_string()
        ]
    );
}

#[test]
fn parameter_lines() {
    let p = param("id", "path", true, Some("integer"), Some("int32"));
    assert_eq!(text(&build_param_line(&p, "", true, false, true)), "→ id*: [_____]  (integer/int32)");
    assert_eq!(text(&build_param_line(&p, "7", false, false, true)), "  id*: [7]  (integer/int32)");
    assert_eq!(text(&build_param_line(&p, "7", true, true, true)), "→ id*: [7▊]  (integer/int32)");
    let q = param("limit", "query", false, None, None);
    assert_eq!(text(&build_param_line(&q, "", false, false, false)), "  limit: [_____]  (unknown)");
}

#[test]
fn request_tab_shows_parameters_preview_and_help() {
    let e = user_endpoint();
    let mut s = state_with(vec![e.clone_for_tests()]);
    let mut cfg = RequestConfig::default();
    cfg.path_params.insert("id".to_string(), "5".to_string());
    cfg.query_params.insert("limit".to_string(), "10".to_string());
    *s.request.configs.get_or_insert(e.path.clone(), RequestConfig::default()) = cfg;
    s.request.edit_mode = RequestEditMode::Editing("limit".to_string());
    s.request.param_edit_buffer = "1".to_string();
    s.ui.selected_param_index = 1;
    let lines = texts(&request_tab_lines(&e, &s));
    assert_eq!(
        lines,
        vec![
            "Path Parameters:",
            "",
            "  id*: [5]  (integer/int32)",
            "",
            "Query Parameters:",
            "",
            "→ limit: [1▊]  (unknown)",
            "",
            "Preview URL:",
            "/users/5?limit=10",
            "",
            "Type to edit  |  Enter: Confirm  |  Esc: Cancel",
        ]
    );
}

trait CloneForTests {
    fn clone_for_tests(&self) -> Self;
}

impl CloneForTests for ApiEndpoint {
    fn clone_for_tests(&self) -> Self {
        ApiEndpoint {
            method: self.method.clone(),
            path: self.path.clone(),
            summary: self.summary.clone(),
            tags: self.tags.clone(),
            parameters: self.parameters.clone(),
        }
    }
}

#[test]
fn request_tab_for_a_body_method_previews_the_body() {
    let e = ApiEndpoint {
        method: "post".to_string(),
        path: "/p".to_string(),
        summary: None,
        tags: vec![],
        parameters: vec![],
    };
    let mut s = state_with(vec![e.clone_for_tests()]);
    let lines = texts(&request_tab_lines(&e, &s));
    assert_eq!(lines[0], "No parameters defined for this endpoint");
    assert!(lines.contains(&"▼ Request Body:  [Press 'b' to edit, 'x' to toggle]".to_string()));
    assert!(lines.contains(&"  {}".to_string()));
    let mut cfg = RequestConfig::default();
    cfg.body = Some("1\n2\n3\n4\n5\n6\n7".to_string());
    *s.request.configs.get_or_insert("/p".to_string(), RequestConfig::default()) = cfg;
    let lines = texts(&request_tab_lines(&e, &s));
    assert!(lines.contains(&"  5".to_string()));
    assert!(!lines.contains(&"  6".to_string()));
    assert!(lines.contains(&"    ... (press 'b' to edit)".to_string()));
    s.ui.body_section_expanded = false;
    let lines = texts(&request_tab_lines(&e, &s));
    assert!(!lines.contains(&"  1".to_string()));
}

#[test]
fn headers_are_sorted_by_name() {
    let mut s = state_with(vec![]);
    assert_eq!(texts(&headers_tab_lines(&s)), vec!["No response yet".to_string()]);
    let headers = vec![
        ("Zeta".to_string(), "1".to_string()),
        ("alpha".to_string(), "2".to_string()),
        ("Mid".to_string(), "3".to_string()),
    ];
    s.request.current_response = Some(received_response(200, None, headers, Ok(String::new()), 0));
    assert_eq!(
        texts(&headers_tab_lines(&s)),
        vec!["alpha: 2".to_string(), "mid: 3".to_string(), "zeta: 1".to_string()]
    );
}

#[test]
fn response_tab_highlights_the_selected_line() {
    let e = user_endpoint();
    let mut s = state_with(vec![]);
    assert_eq!(texts(&response_tab_lines(&e, &s)), vec!["Press [Space] to execute request".to_string()]);
    s.request.current_response = Some(received_response(404, Some("Not Found".to_string()), vec![], Ok("[1]".to_string()), 15));
    s.ui.active_detail_tab = DetailTab::Response;
    s.ui.response_selected_line = 3;
    let lines = response_tab_lines(&e, &s);
    assert_eq!(
        texts(&lines),
        vec!["Status: 404 Not Found  Duration: 15ms", "", "[", "  1", "]"]
    );
    assert_eq!(lines[3][0].tone, Tone::Selected);
    assert_eq!(lines[2][0].tone, Tone::Plain);
    s.request.executing_endpoint = Some("/users/{id}".to_string());
    assert_eq!(texts(&response_tab_lines(&e, &s)), vec!["⏳ Executing request...".to_string()]);
}

#[test]
fn details_panel_while_loading_and_without_selection() {
    let mut s = state_with(vec![]);
    s.data.loading_state = LoadingState::Error("Network error: x".to_string());
    let v = details_view(&s, 0);
    assert!(v.tab_bar.is_none());
    assert_eq!(texts(&v.lines), vec!["Error loading endpoints:", "", "Network error: x"]);
    s.data.loading_state = LoadingState::Complete;
    let v = details_view(&s, 0);
    assert!(v.tab_bar.is_some());
    assert_eq!(texts(&v.lines), vec!["No endpoint selected"]);
    assert_eq!(v.border, Tone::Muted);
}
