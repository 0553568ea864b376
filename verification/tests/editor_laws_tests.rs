use lazy_swagger_tui::actions::{apply_action, AppAction};
use lazy_swagger_tui::config::validate_url;
use lazy_swagger_tui::editor::BodyEditor;
use lazy_swagger_tui::state::AppState;
use lazy_swagger_tui::swagger::parse_swagger_spec;
use lazy_swagger_tui::types::{ApiEndpoint, Operation, Parameter, PathItem, RequestEditMode, SwaggerSpec};
use lazy_swagger_tui::utils::mask_token;

/// An editor holding `text` with its cursor `right` characters from the start.
fn editor_at(text: &str, right: usize) -> BodyEditor {
    let mut e = BodyEditor::with_content(text.to_string());
    while e.move_cursor_up() {}
    e.move_cursor_to_start();
    for _ in 0..right {
        e.move_cursor_right();
    }
    e
}

#[test]
fn cursor_marker_at_the_cursor_offset() {
    let e = editor_at("ab\ncd", 4);
    assert_eq!(e.cursor(), (1, 1));
    assert_eq!(e.content_with_cursor(), "ab\nc\u{2588}d");
}

#[test]
fn inserting_text_at_the_cursor_offset() {
    let mut e = editor_at("ab\ncd", 1);
    e.mark_saved();
    e.insert_str("");
    assert!(!e.is_dirty());
    e.insert_str("X\nY\nZ");
    assert_eq!(e.content(), "aX\nY\nZb\ncd");
    assert_eq!(e.lines().len(), 4);
    assert_eq!(e.cursor(), (2, 1));
    assert!(e.is_dirty());
}

#[test]
fn backspace_undoes_a_character_or_a_newline() {
    let mut e = editor_at("hello\nworld", 3);
    let before = (e.content(), e.cursor());
    e.insert_char('z');
    assert!(e.delete_char_before_cursor());
    assert_eq!((e.content(), e.cursor()), before);
    e.insert_newline();
    assert_eq!(e.cursor(), (1, 0));
    assert_eq!(e.content(), "hel\nlo\nworld");
    assert!(e.delete_char_before_cursor());
    assert_eq!((e.content(), e.cursor()), before);
}

#[test]
fn delete_at_the_cursor_offset() {
    let mut e = editor_at("ab\ncd", 2);
    e.mark_saved();
    assert!(e.delete_char_after_cursor());
    assert_eq!(e.content(), "abcd");
    assert_eq!(e.cursor(), (0, 2));
    assert!(e.is_dirty());
    let mut f = editor_at("ab", 2);
    f.mark_saved();
    assert!(!f.delete_char_after_cursor());
    assert_eq!(f.content(), "ab");
    assert!(!f.is_dirty());
}

#[test]
fn cursor_moves_keep_the_dirty_flag() {
    let mut e = BodyEditor::with_content("ab\ncd".to_string());
    assert!(!e.is_dirty());
    e.move_cursor_up();
    e.move_cursor_left();
    e.move_cursor_down();
    e.move_cursor_right();
    assert!(!e.is_dirty());
    e.format_json().unwrap_err();
    assert!(!e.is_dirty());
}

#[test]
fn formatting_twice_succeeds() {
    let mut e = BodyEditor::with_content("{\"a\":[1,2]}".to_string());
    e.format_json().unwrap();
    assert!(e.is_dirty());
    assert!(e.validate_json().is_ok());
    let once = e.content();
    e.format_json().unwrap();
    assert_eq!(e.content(), once);
}

#[test]
fn masking_depends_on_length_and_ends() {
    assert_eq!(mask_token("abcdefgHIJKLuvwxyz"), mask_token("abcdefg12345uvwxyz"));
    assert_eq!(mask_token("abcdefgHIJKLuvwxyz"), "abcdefg...uvwxyz");
    assert_eq!(mask_token("short1"), mask_token("other2"));
}

#[test]
fn urls_pass_by_their_prefix() {
    assert!(validate_url("http://x").is_ok());
    assert!(validate_url("https://").is_ok());
    assert_eq!(validate_url("").unwrap_err(), "URL cannot be empty");
    assert_eq!(validate_url("ftp://x").unwrap_err(), "URL must start with http:// or https://");
}

fn op() -> Option<Operation> {
    Some(Operation { summary: None, tags: None, parameters: None })
}

#[test]
fn one_endpoint_per_operation() {
    let spec = SwaggerSpec {
        paths: vec![
            ("/a".to_string(), PathItem { get: op(), post: None, put: op(), delete: None, patch: None }),
            ("/b".to_string(), PathItem { get: None, post: None, put: None, delete: None, patch: op() }),
        ],
    };
    assert_eq!(parse_swagger_spec(spec).len(), 3);
}

#[test]
fn confirming_an_edit_stores_it() {
    let mut s = AppState::default();
    s.data.endpoints = vec![ApiEndpoint {
        method: "GET".to_string(),
        path: "/u/{id}".to_string(),
        summary: None,
        tags: vec![],
        parameters: vec![Parameter {
            name: "id".to_string(),
            location: "path".to_string(),
            required: Some(true),
            schema: None,
            description: None,
        }],
    }];
    apply_action(AppAction::StartEditingParameter { param_name: "id".to_string(), endpoint_path: "/u/{id}".to_string() }, &mut s);
    apply_action(AppAction::AppendToParamBuffer("7".to_string()), &mut s);
    apply_action(AppAction::ConfirmParameterEdit { endpoint_path: "/u/{id}".to_string() }, &mut s);
    assert!(matches!(s.request.edit_mode, RequestEditMode::Viewing));
    assert_eq!(s.request.param_edit_buffer, "");
    let c = s.request.configs.get("/u/{id}").unwrap();
    assert_eq!(c.path_params.get("id").map(|v| v.as_str()), Some("7"));
    assert!(c.query_params.get("id").is_none());

    // With no edit under way nothing is stored.
    apply_action(AppAction::ConfirmParameterEdit { endpoint_path: "/v".to_string() }, &mut s);
    assert!(s.request.configs.get("/v").is_none());
}
