use lazy_swagger_tui::editor::BodyEditor;

#[test]
fn test_new_editor() {
    let editor = BodyEditor::new();
    assert_eq!(editor.content(), "");
    assert_eq!(editor.cursor(), (0, 0));
    assert!(!editor.is_dirty());
}

#[test]
fn test_with_content() {
    let editor = BodyEditor::with_content("hello".to_string());
    assert_eq!(editor.content(), "hello");
    assert_eq!(editor.cursor(), (0, 5));
    assert!(!editor.is_dirty());
}

#[test]
fn test_insert_char() {
    let mut editor = BodyEditor::new();
    editor.insert_char('a');
    assert_eq!(editor.content(), "a");
    assert_eq!(editor.cursor(), (0, 1));
    assert!(editor.is_dirty());
}

#[test]
fn test_insert_str() {
    let mut editor = BodyEditor::new();
    editor.insert_str("hello");
    assert_eq!(editor.content(), "hello");
    assert_eq!(editor.cursor(), (0, 5));
    assert!(editor.is_dirty());
}

#[test]
fn test_delete_char_before_cursor() {
    let mut editor = BodyEditor::with_content("hello".to_string());
    assert!(editor.delete_char_before_cursor());
    assert_eq!(editor.content(), "hell");
    assert_eq!(editor.cursor(), (0, 4));
}

#[test]
fn test_delete_at_start() {
    let mut editor = BodyEditor::with_content("hello".to_string());
    editor.move_cursor_to_start();
    assert!(!editor.delete_char_before_cursor());
    assert_eq!(editor.content(), "hello");
}

#[test]
fn test_move_cursor_left_right() {
    let mut editor = BodyEditor::with_content("hello".to_string());
    assert!(editor.move_cursor_left());
    assert_eq!(editor.cursor(), (0, 4));
    assert!(editor.move_cursor_right());
    assert_eq!(editor.cursor(), (0, 5));
    assert!(!editor.move_cursor_right());
}

#[test]
fn test_clear() {
    let mut editor = BodyEditor::with_content("hello".to_string());
    editor.clear();
    assert_eq!(editor.content(), "");
    assert_eq!(editor.cursor(), (0, 0));
    assert!(editor.is_dirty());
}

#[test]
fn test_format_json_valid() {
    let mut editor = BodyEditor::with_content(r#"{"name":"test","age":30}"#.to_string());
    assert!(editor.format_json().is_ok());
    assert!(editor.content().contains("  "));
    assert!(editor.content().contains("\"name\""));
}

#[test]
fn test_format_json_invalid() {
    let mut editor = BodyEditor::with_content("{invalid json".to_string());
    assert!(editor.format_json().is_err());
    assert_eq!(editor.content(), "{invalid json");
}

#[test]
fn test_paste_and_format_flow() {
    let mut editor = BodyEditor::new();

    let compact_json = r#"{"name":"test","age":30,"items":[1,2,3]}"#;
    editor.insert_str_normalized(compact_json);

    assert_eq!(editor.content(), compact_json);

    let result = editor.format_json();
    assert!(result.is_ok());

    let formatted = editor.content();
    println!("Formatted content:\n{formatted}");
    println!("Line count: {}", formatted.lines().count());
    assert!(formatted.contains("  "));
    assert!(formatted.contains("\n"));

    let with_cursor = editor.content_with_cursor();
    println!("\nWith cursor:\n{with_cursor}");
    println!("Line count: {}", with_cursor.lines().count());
    assert!(with_cursor.contains("  "));
    assert!(with_cursor.contains("\n"));
    assert!(with_cursor.contains("█"));
}

#[test]
fn test_insert_newline_splits_line() {
    let mut editor = BodyEditor::new();
    editor.insert_str("hello world");

    assert_eq!(editor.cursor(), (0, 11));

    // Move the cursor to column 5 (after "hello").
    for _ in 0..6 {
        editor.move_cursor_left();
    }
    assert_eq!(editor.cursor(), (0, 5));

    editor.insert_newline();

    assert_eq!(editor.lines().len(), 2);
    assert_eq!(editor.lines()[0], "hello");
    assert_eq!(editor.lines()[1], " world");

    assert_eq!(editor.cursor(), (1, 0));
}

#[test]
fn test_validate_json() {
    let mut editor = BodyEditor::with_content(r#"{"valid": true}"#.to_string());
    assert!(editor.validate_json().is_ok());

    editor.set_content("{invalid}".to_string());
    assert!(editor.validate_json().is_err());
}

#[test]
fn test_mark_saved() {
    let mut editor = BodyEditor::new();
    editor.insert_char('a');
    assert!(editor.is_dirty());
    editor.mark_saved();
    assert!(!editor.is_dirty());
}

#[test]
fn test_utf8_handling() {
    let mut editor = BodyEditor::new();
    editor.insert_char('😀');
    assert_eq!(editor.content(), "😀");
    assert_eq!(editor.cursor(), (0, 1));
    assert!(editor.delete_char_before_cursor());
    assert_eq!(editor.content(), "");
}

#[test]
fn test_smart_quote_normalization() {
    let mut editor = BodyEditor::new();

    let smart_quoted = "{\u{201C}username\u{201D}:\u{201D}test\u{201D}}";
    editor.insert_str_normalized(smart_quoted);
    assert_eq!(editor.content(), r#"{"username":"test"}"#);

    assert!(editor.format_json().is_ok());
}

#[test]
fn test_regular_quotes_unchanged() {
    let mut editor = BodyEditor::new();

    editor.insert_str_normalized(r#"{"username":"test"}"#);
    assert_eq!(editor.content(), r#"{"username":"test"}"#);
    assert!(editor.format_json().is_ok());
}

#[test]
fn test_single_quote_normalization() {
    let mut editor = BodyEditor::new();

    let smart_single = "{\u{2018}key\u{2019}:\u{2018}value\u{2019}}";
    editor.insert_str_normalized(smart_single);
    assert_eq!(editor.content(), "{'key':'value'}");
}

#[test]
fn test_move_cursor_up_down() {
    let mut editor = BodyEditor::with_content("line1\nline2\nline3".to_string());

    assert_eq!(editor.cursor(), (2, 5));

    assert!(editor.move_cursor_up());
    assert_eq!(editor.cursor(), (1, 5));

    assert!(editor.move_cursor_up());
    assert_eq!(editor.cursor(), (0, 5));

    assert!(!editor.move_cursor_up());
    assert_eq!(editor.cursor(), (0, 5));

    assert!(editor.move_cursor_down());
    assert_eq!(editor.cursor(), (1, 5));

    assert!(editor.move_cursor_down());
    assert_eq!(editor.cursor(), (2, 5));

    assert!(!editor.move_cursor_down());
}

#[test]
fn test_insert_newline() {
    let mut editor = BodyEditor::with_content("hello world".to_string());

    // Move the cursor to column 5 (after "hello").
    for _ in 0..6 {
        editor.move_cursor_left();
    }
    editor.insert_newline();

    assert_eq!(editor.content(), "hello\n world");
    assert_eq!(editor.cursor(), (1, 0));
}

#[test]
fn test_multiline_paste() {
    let mut editor = BodyEditor::new();
    editor.insert_str("{\n  \"name\": \"test\"\n}");

    assert_eq!(editor.lines().len(), 3);
    assert_eq!(editor.lines()[0], "{");
    assert_eq!(editor.lines()[1], "  \"name\": \"test\"");
    assert_eq!(editor.lines()[2], "}");
    assert_eq!(editor.cursor(), (2, 1));
}

#[test]
fn test_cursor_position_display() {
    let mut editor = BodyEditor::new();
    assert_eq!(editor.cursor_position_display(), "Ln 1, Col 1");

    editor.insert_str("hello\nworld");
    assert_eq!(editor.cursor_position_display(), "Ln 2, Col 6");
}

#[test]
fn test_content_with_cursor() {
    let mut editor = BodyEditor::with_content("hello\nworld".to_string());

    assert_eq!(editor.cursor(), (1, 5));
    let content = editor.content_with_cursor();
    assert_eq!(content, "hello\nworld█");

    // Move the cursor to row 0, column 2.
    editor.move_cursor_up();
    for _ in 0..3 {
        editor.move_cursor_left();
    }
    assert_eq!(editor.cursor(), (0, 2));
    let content = editor.content_with_cursor();
    assert_eq!(content, "he█llo\nworld");
}
