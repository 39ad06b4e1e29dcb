use rediff::editor::EditorState;

#[test]
fn test_editor_state_no_selection_shows_cursor() {
    let editor_state = EditorState {
        cursor_index: 0,
        selection_range: None,
    };
    assert!(editor_state.selection_range.is_none());
    assert_eq!(editor_state.cursor_index, 0);
}

#[test]
fn test_editor_state_with_selection_shows_cursor() {
    let editor_state = EditorState {
        cursor_index: 10,
        selection_range: Some(5..10),
    };
    assert!(editor_state.selection_range.is_some());
    assert_eq!(editor_state.cursor_index, 10);
}

#[test]
fn test_editor_state_creation() {
    let editor_state = EditorState {
        cursor_index: 42,
        selection_range: None,
    };
    assert_eq!(editor_state.cursor_index, 42);
    assert!(editor_state.selection_range.is_none());
}

#[test]
fn test_editor_state_with_selection() {
    let editor_state = EditorState {
        cursor_index: 10,
        selection_range: Some(5..10),
    };
    assert_eq!(editor_state.cursor_index, 10);
    assert_eq!(editor_state.selection_range, Some(5..10));
}

#[test]
fn test_editor_state_clone() {
    let editor_state = EditorState {
        cursor_index: 100,
        selection_range: Some(50..100),
    };
    let cloned = editor_state.clone();
    assert_eq!(cloned.cursor_index, 100);
    assert_eq!(cloned.selection_range, Some(50..100));
}
