use lazy_swagger_tui::actions::{apply_action, AppAction};
use lazy_swagger_tui::editing::{apply, apply_many, handle_search_clear, handle_search_input};
use lazy_swagger_tui::editor::{BodyEditor, ContentType, KeyInput};
use lazy_swagger_tui::groups::group_endpoints;
use lazy_swagger_tui::state::AppState;
use lazy_swagger_tui::types::{ApiEndpoint, DetailTab, PanelFocus, ViewMode};

fn endpoint(method: &str, path: &str) -> ApiEndpoint {
    ApiEndpoint { method: method.to_string(), path: path.to_string(), summary: None, tags: vec![], parameters: vec![] }
}

fn state() -> AppState {
    let mut s = AppState::default();
    s.data.endpoints = vec![endpoint("GET", "/a"), endpoint("POST", "/b"), endpoint("GET", "/c")];
    s.data.grouped_endpoints = group_endpoints(&s.data.endpoints);
    s
}

#[test]
fn toggling_the_view_twice_changes_nothing() {
    let mut s = state();
    apply(&mut s, AppAction::ToggleViewMode);
    assert_eq!(s.ui.view_mode, ViewMode::Flat);
    apply(&mut s, AppAction::ToggleViewMode);
    assert_eq!(s.ui.view_mode, ViewMode::Grouped);
}

#[test]
fn five_tabs_forward_come_back_to_the_list() {
    let mut s = state();
    apply_many(&mut s, (0..5).map(|_| AppAction::NavigateTabForward).collect());
    assert_eq!(s.ui.panel_focus, PanelFocus::EndpointsList);
    assert_eq!(s.ui.active_detail_tab, DetailTab::Endpoint);
}

#[test]
fn tab_backward_then_forward_restores_focus() {
    let mut s = state();
    s.ui.panel_focus = PanelFocus::Details;
    s.ui.active_detail_tab = DetailTab::Headers;
    apply_many(&mut s, vec![AppAction::NavigateTabBackward, AppAction::NavigateTabForward]);
    assert_eq!(s.ui.panel_focus, PanelFocus::Details);
    assert_eq!(s.ui.active_detail_tab, DetailTab::Headers);
}

#[test]
fn typing_then_backspace_restores_the_buffer() {
    let mut s = state();
    s.request.param_edit_buffer = "ab".to_string();
    apply_action(AppAction::AppendToParamBuffer("x".to_string()), &mut s);
    apply_action(AppAction::BackspaceParamBuffer, &mut s);
    assert_eq!(s.request.param_edit_buffer, "ab");
}

#[test]
fn search_type_then_backspace_and_clear() {
    let mut s = state();
    let mut sel = 2usize;
    handle_search_input(&mut sel, KeyInput::Char { c: 'b', ctrl: false }, &mut s);
    assert_eq!(sel, 0);
    assert_eq!(s.search.filtered_endpoints.len(), 1);
    handle_search_input(&mut sel, KeyInput::Backspace, &mut s);
    assert_eq!(s.search.query, "");
    assert_eq!(s.search.filtered_endpoints.len(), 0);
    assert_eq!(s.active_endpoints().len(), 3);

    handle_search_input(&mut sel, KeyInput::Char { c: 'c', ctrl: false }, &mut s);
    sel = 1;
    handle_search_clear(&mut sel, &mut s);
    assert_eq!(sel, 0);
    assert_eq!(s.active_endpoints().len(), 3);
}

#[test]
fn an_editor_gives_its_text_back() {
    for text in ["", "a", "line1\nline2", "{\n  \"a\": 1\n}", "\n\nx"] {
        let e = BodyEditor::with_content(text.to_string());
        assert_eq!(e.content(), text);
        let mut f = BodyEditor::new();
        f.set_content(text.to_string());
        assert_eq!(f.content(), text);
    }
    // A final newline is dropped.
    assert_eq!(BodyEditor::with_content("a\n".to_string()).content(), "a");
}

#[test]
fn editor_content_type_and_default() {
    let mut e = BodyEditor::default();
    assert_eq!(*e.content_type(), ContentType::Json);
    e.set_content_type(ContentType::Xml);
    assert_eq!(*e.content_type(), ContentType::Xml);
    assert!(!e.is_dirty());
}

#[test]
fn masked_display_of_the_token() {
    let mut s = state();
    assert_eq!(s.request.auth.get_masked_display(), "");
    s.request.auth.set_token("0123456789abcdefXYZ".to_string());
    assert_eq!(s.request.auth.get_masked_display(), "0123456...defXYZ");
}

fn tagged(method: &str, path: &str, tags: &[&str]) -> ApiEndpoint {
    ApiEndpoint {
        method: method.to_string(),
        path: path.to_string(),
        summary: None,
        tags: tags.iter().map(|t| t.to_string()).collect(),
        parameters: vec![],
    }
}

#[test]
fn an_endpoint_is_listed_under_each_of_its_tags() {
    let eps = vec![tagged("GET", "/a", &["X", "Y"]), tagged("GET", "/b", &[]), tagged("POST", "/c", &["Y"])];
    let g = group_endpoints(&eps);
    let groups = g.groups();
    let names: Vec<&str> = groups.iter().map(|x| x.name.as_str()).collect();
    assert_eq!(names, vec!["Other", "X", "Y"]);
    let paths = |i: usize| groups[i].endpoints.iter().map(|e| e.path.clone()).collect::<Vec<_>>();
    assert_eq!(paths(0), vec!["/b"]);
    assert_eq!(paths(1), vec!["/a"]);
    assert_eq!(paths(2), vec!["/a", "/c"]);
}

#[test]
fn control_letters_at_the_search_prompt() {
    let mut s = state();
    let mut sel = 1usize;
    handle_search_input(&mut sel, KeyInput::Char { c: 'a', ctrl: false }, &mut s);
    handle_search_input(&mut sel, KeyInput::Char { c: 'x', ctrl: true }, &mut s);
    assert_eq!(s.search.query, "ax");
    assert_eq!(sel, 0);
    handle_search_input(&mut sel, KeyInput::Char { c: 'u', ctrl: true }, &mut s);
    assert_eq!(s.search.query, "");
}
