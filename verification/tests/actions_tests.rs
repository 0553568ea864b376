use lazy_swagger_tui::actions::{apply_action, delete_word, AppAction};
use lazy_swagger_tui::state::AppState;
use lazy_swagger_tui::types::{DetailTab, InputMode, PanelFocus, RequestEditMode, ViewMode};

fn create_test_state() -> AppState {
    let mut state = AppState::default();
    state.ui.view_mode = ViewMode::Flat;
    state
}

#[test]
fn test_navigate_to_panel() {
    let mut state = create_test_state();
    assert_eq!(state.ui.panel_focus, PanelFocus::EndpointsList);

    apply_action(AppAction::NavigateToPanel(PanelFocus::Details), &mut state);
    assert_eq!(state.ui.panel_focus, PanelFocus::Details);
}

#[test]
fn test_navigate_tab_forward() {
    let mut state = create_test_state();
    state.ui.panel_focus = PanelFocus::Details;
    state.ui.active_detail_tab = DetailTab::Endpoint;

    apply_action(AppAction::NavigateTabForward, &mut state);
    assert_eq!(state.ui.active_detail_tab, DetailTab::Request);

    apply_action(AppAction::NavigateTabForward, &mut state);
    assert_eq!(state.ui.active_detail_tab, DetailTab::Headers);

    apply_action(AppAction::NavigateTabForward, &mut state);
    assert_eq!(state.ui.active_detail_tab, DetailTab::Response);

    apply_action(AppAction::NavigateTabForward, &mut state);
    assert_eq!(state.ui.panel_focus, PanelFocus::EndpointsList);
}

#[test]
fn test_navigate_tab_backward() {
    let mut state = create_test_state();
    state.ui.panel_focus = PanelFocus::Details;
    state.ui.active_detail_tab = DetailTab::Response;

    apply_action(AppAction::NavigateTabBackward, &mut state);
    assert_eq!(state.ui.active_detail_tab, DetailTab::Headers);

    apply_action(AppAction::NavigateTabBackward, &mut state);
    assert_eq!(state.ui.active_detail_tab, DetailTab::Request);

    apply_action(AppAction::NavigateTabBackward, &mut state);
    assert_eq!(state.ui.active_detail_tab, DetailTab::Endpoint);

    apply_action(AppAction::NavigateTabBackward, &mut state);
    assert_eq!(state.ui.panel_focus, PanelFocus::EndpointsList);
}

#[test]
fn test_tab_navigation_preserves_active_tab() {
    let mut state = create_test_state();

    state.ui.panel_focus = PanelFocus::Details;
    state.ui.active_detail_tab = DetailTab::Request;

    apply_action(AppAction::NavigateToPanel(PanelFocus::EndpointsList), &mut state);
    assert_eq!(state.ui.panel_focus, PanelFocus::EndpointsList);

    apply_action(AppAction::NavigateTabForward, &mut state);
    assert_eq!(state.ui.panel_focus, PanelFocus::Details);
    assert_eq!(state.ui.active_detail_tab, DetailTab::Request);

    apply_action(AppAction::NavigateTabForward, &mut state);
    assert_eq!(state.ui.active_detail_tab, DetailTab::Headers);

    apply_action(AppAction::NavigateToPanel(PanelFocus::EndpointsList), &mut state);

    apply_action(AppAction::NavigateTabBackward, &mut state);
    assert_eq!(state.ui.panel_focus, PanelFocus::Details);
    assert_eq!(state.ui.active_detail_tab, DetailTab::Headers);
}

#[test]
fn test_toggle_view_mode() {
    let mut state = create_test_state();
    assert_eq!(state.ui.view_mode, ViewMode::Flat);

    apply_action(AppAction::ToggleViewMode, &mut state);
    assert_eq!(state.ui.view_mode, ViewMode::Grouped);

    apply_action(AppAction::ToggleViewMode, &mut state);
    assert_eq!(state.ui.view_mode, ViewMode::Flat);
}

#[test]
fn test_toggle_group_expanded() {
    let mut state = create_test_state();
    assert!(state.ui.expanded_groups.is_empty());

    apply_action(AppAction::ToggleGroupExpanded("Users".to_string()), &mut state);
    assert!(state.ui.expanded_groups.contains(&"Users".to_string()));
    assert_eq!(state.ui.expanded_groups.len(), 1);

    apply_action(AppAction::ToggleGroupExpanded("Users".to_string()), &mut state);
    assert!(state.ui.expanded_groups.is_empty());
}

#[test]
fn test_enter_url_input_mode() {
    let mut state = create_test_state();

    apply_action(
        AppAction::EnterUrlInputMode {
            swagger_url: Some("http://localhost:5000/swagger.json".to_string()),
            base_url: Some("http://localhost:5000".to_string()),
        },
        &mut state,
    );

    assert_eq!(state.input.mode, InputMode::EnteringUrl);
    assert_eq!(state.input.url_input, "http://localhost:5000/swagger.json");
    assert_eq!(state.input.base_url_input, "http://localhost:5000");
}

#[test]
fn test_text_input_actions() {
    let mut state = create_test_state();

    apply_action(AppAction::AppendToUrlInput("http://".to_string()), &mut state);
    assert_eq!(state.input.url_input, "http://");

    apply_action(AppAction::AppendToUrlInput("localhost".to_string()), &mut state);
    assert_eq!(state.input.url_input, "http://localhost");

    apply_action(AppAction::BackspaceUrlInput, &mut state);
    assert_eq!(state.input.url_input, "http://localhos");

    apply_action(AppAction::ClearUrlInput, &mut state);
    assert_eq!(state.input.url_input, "");
}

#[test]
fn test_delete_word() {
    let mut s = "hello world foo".to_string();
    delete_word(&mut s);
    assert_eq!(s, "hello world");

    delete_word(&mut s);
    assert_eq!(s, "hello");

    delete_word(&mut s);
    assert_eq!(s, "");

    delete_word(&mut s);
    assert_eq!(s, "");
}

#[test]
fn test_delete_word_with_trailing_space() {
    let mut s = "hello world   ".to_string();
    delete_word(&mut s);
    assert_eq!(s, "hello");
}

#[test]
fn test_auth_token_actions() {
    let mut state = create_test_state();
    assert!(!state.request.auth.is_authenticated());

    apply_action(AppAction::SetAuthToken("my-secret-token".to_string()), &mut state);
    assert!(state.request.auth.is_authenticated());

    apply_action(AppAction::ClearAuthToken, &mut state);
    assert!(!state.request.auth.is_authenticated());
}

#[test]
fn test_parameter_buffer_actions() {
    let mut state = create_test_state();

    apply_action(AppAction::AppendToParamBuffer("123".to_string()), &mut state);
    assert_eq!(state.request.param_edit_buffer, "123");

    apply_action(AppAction::BackspaceParamBuffer, &mut state);
    assert_eq!(state.request.param_edit_buffer, "12");

    apply_action(AppAction::ClearParamBuffer, &mut state);
    assert_eq!(state.request.param_edit_buffer, "");
}

#[test]
fn test_cancel_parameter_edit() {
    let mut state = create_test_state();
    state.request.edit_mode = RequestEditMode::Editing("id".to_string());
    state.request.param_edit_buffer = "test value".to_string();

    apply_action(AppAction::CancelParameterEdit, &mut state);
    assert!(matches!(state.request.edit_mode, RequestEditMode::Viewing));
    assert_eq!(state.request.param_edit_buffer, "");
}

#[test]
fn test_navigate_param_up_down() {
    let mut state = create_test_state();
    state.ui.selected_param_index = 5;

    apply_action(AppAction::NavigateParamUp, &mut state);
    assert_eq!(state.ui.selected_param_index, 4);

    apply_action(AppAction::NavigateParamDown, &mut state);
    assert_eq!(state.ui.selected_param_index, 5);

    state.ui.selected_param_index = 0;
    apply_action(AppAction::NavigateParamUp, &mut state);
    assert_eq!(state.ui.selected_param_index, 0);
}

#[test]
fn test_search_actions() {
    let mut state = create_test_state();

    apply_action(AppAction::EnterSearchMode, &mut state);
    assert_eq!(state.input.mode, InputMode::Searching);

    apply_action(AppAction::AppendToSearchQuery("user".to_string()), &mut state);
    assert_eq!(state.search.query, "user");

    apply_action(AppAction::BackspaceSearchQuery, &mut state);
    assert_eq!(state.search.query, "use");

    apply_action(AppAction::ClearSearchQuery, &mut state);
    assert_eq!(state.search.query, "");

    apply_action(AppAction::ExitSearchMode, &mut state);
    assert_eq!(state.input.mode, InputMode::Normal);
}
