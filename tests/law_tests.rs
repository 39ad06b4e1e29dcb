use rediff::buffer::TextBuffer;
use rediff::cursor::{Cursor, CursorGoal};
use rediff::editor::{Editor, Selection};

fn buffer_of(text: &str) -> TextBuffer {
    let mut buffer = TextBuffer::new();
    buffer.insert(0, text);
    buffer
}

fn editor_of(text: &str) -> Editor {
    let mut editor = Editor::new();
    editor.paste(text);
    editor
}

#[test]
fn round_trip_every_offset_including_end() {
    for text in ["", "\n", "a\n\nb", "Line 1\nLine 2\nLine 3\n", "🌍 x\ny🗿"] {
        let buffer = buffer_of(text);
        for i in 0..=buffer.len() {
            let (line, col) = buffer.char_to_line_col(i);
            assert_eq!(buffer.line_col_to_char(line, col), i, "text {:?} offset {}", text, i);
        }
    }
}

#[test]
fn char_to_line_col_clamps_past_end() {
    let buffer = buffer_of("ab\ncd");
    assert_eq!(buffer.char_to_line_col(100), (1, 2));
    assert_eq!(buffer.char_to_line_col(3), (1, 0));
}

#[test]
fn line_col_to_char_huge_column_clamps() {
    let buffer = buffer_of("ab\ncd");
    assert_eq!(buffer.line_col_to_char(0, usize::MAX), 3);
    assert_eq!(buffer.line_col_to_char(1, usize::MAX), 5);
    assert_eq!(buffer.line_col_to_char(2, 0), 5);
}

#[test]
fn line_helpers() {
    let buffer = buffer_of("ab\n\ncde");
    assert_eq!(buffer.line_count(), 3);
    assert_eq!(buffer.line_start(1), 3);
    assert_eq!(buffer.line_end(1), 4);
    assert_eq!(buffer.line_len(0), 2);
    assert_eq!(buffer.line_len(1), 0);
    assert_eq!(buffer.line_len(2), 3);
    assert_eq!(buffer.line_start(7), 7);
    assert_eq!(buffer.line(1), Some("\n".to_string()));
    assert_eq!(buffer.line(2), Some("cde".to_string()));
}

#[test]
fn trailing_newline_makes_an_empty_last_line() {
    let buffer = buffer_of("x\n");
    assert_eq!(buffer.line_count(), 2);
    assert_eq!(buffer.line(1), Some(String::new()));
    assert_eq!(buffer.char_to_line_col(2), (1, 0));
}

#[test]
fn carriage_return_is_not_a_line_break() {
    let buffer = buffer_of("a\rb\u{2028}c");
    assert_eq!(buffer.line_count(), 1);
}

#[test]
fn slice_and_chars_clamp() {
    let buffer = buffer_of("h🌍llo");
    assert_eq!(buffer.slice(1, 3), "🌍l");
    assert_eq!(buffer.slice(3, 100), "lo");
    assert_eq!(buffer.slice(4, 2), "");
    assert_eq!(buffer.slice(50, 60), "");
    assert_eq!(buffer.chars(), vec!['h', '🌍', 'l', 'l', 'o']);
    assert!(!buffer.is_empty());
    assert!(TextBuffer::new().is_empty());
}

#[test]
fn insert_past_end_appends() {
    let mut buffer = buffer_of("ab");
    buffer.insert(10, "c");
    assert_eq!(buffer.as_str(), "abc");
}

#[test]
fn delete_past_end_is_a_no_op() {
    let mut buffer = buffer_of("abc");
    buffer.delete(5, 2);
    assert_eq!(buffer.as_str(), "abc");
    buffer.delete(1, 0);
    assert_eq!(buffer.as_str(), "abc");
    buffer.delete(1, usize::MAX);
    assert_eq!(buffer.as_str(), "a");
}

#[test]
fn move_left_at_zero_and_right_at_len_are_no_ops() {
    let mut cursor = Cursor::new();
    cursor.move_left();
    assert_eq!(cursor.index, 0);
    assert_eq!(cursor.goal, CursorGoal::Unset);
    cursor.index = 7;
    cursor.goal = CursorGoal::Column(3);
    cursor.move_right(7);
    assert_eq!(cursor.index, 7);
    assert_eq!(cursor.goal, CursorGoal::Unset);
}

#[test]
fn sticky_column_through_short_line() {
    let buffer = buffer_of("hello world\nhi\nhello again");
    let mut cursor = Cursor::new();
    cursor.index = 8;
    cursor.move_down(&buffer);
    assert_eq!(cursor.index, 14);
    assert_eq!(buffer.char_to_line_col(cursor.index), (1, 2));
    cursor.move_down(&buffer);
    assert_eq!(buffer.char_to_line_col(cursor.index), (2, 8));
    assert_eq!(cursor.index, 23);
    assert_eq!(cursor.goal, CursorGoal::Column(8));
}

#[test]
fn move_down_on_last_line_goes_to_end_and_up_on_first_to_start() {
    let buffer = buffer_of("abc\nde");
    let mut cursor = Cursor::new();
    cursor.index = 5;
    cursor.move_down(&buffer);
    assert_eq!(cursor.index, 6);
    cursor.index = 2;
    cursor.goal = CursorGoal::Unset;
    cursor.move_up(&buffer);
    assert_eq!(cursor.index, 0);
    assert_eq!(cursor.goal, CursorGoal::Column(2));
}

#[test]
fn segmentation_is_stable_inside_a_segment() {
    let buffer = buffer_of("foo_bar  ,.!\n\tx🗿🗿 y");
    for p in 0..=buffer.len() {
        let (start, end) = Cursor::find_word_boundaries(&buffer, p);
        for r in start..end {
            assert_eq!(Cursor::find_word_boundaries(&buffer, r), (start, end));
        }
    }
    assert_eq!(Cursor::find_word_boundaries(&buffer, 0), (0, 7));
    assert_eq!(Cursor::find_word_boundaries(&buffer, 8), (7, 9));
    assert_eq!(Cursor::find_word_boundaries(&buffer, 9), (9, 12));
    assert_eq!(Cursor::find_word_boundaries(&buffer, 12), (12, 13));
    assert_eq!(Cursor::find_word_boundaries(&buffer, 13), (13, 14));
    assert_eq!(Cursor::find_word_boundaries(&buffer, 15), (15, 17));
    assert_eq!(Cursor::find_word_boundaries(&buffer, 100), (18, 19));
}

#[test]
fn unicode_letters_and_spaces_classify() {
    assert!(Cursor::is_word_char('é'));
    assert!(Cursor::is_word_char('字'));
    assert!(Cursor::is_word_char('٣'));
    assert!(!Cursor::is_word_char('🗿'));
    let buffer = buffer_of("été\u{3000}x");
    assert_eq!(Cursor::find_word_boundaries(&buffer, 1), (0, 3));
    assert_eq!(Cursor::find_word_boundaries(&buffer, 3), (3, 4));
}

#[test]
fn word_navigation_steps_and_reverses() {
    let buffer = buffer_of("Word Movement Examples");
    let mut cursor = Cursor::new();
    let mut right = Vec::new();
    for _ in 0..3 {
        cursor.move_word_right(&buffer);
        right.push(cursor.index);
    }
    assert_eq!(right, vec![4, 5, 13]);
    let mut left = Vec::new();
    for _ in 0..3 {
        cursor.move_word_left(&buffer);
        left.push(cursor.index);
    }
    assert_eq!(left, vec![5, 4, 0]);
}

#[test]
fn separated_glyphs_are_each_a_stop() {
    let buffer = buffer_of("🗿 🗿 🗿");
    assert_eq!(buffer.len(), 5);
    let mut cursor = Cursor::new();
    let mut stops = Vec::new();
    for _ in 0..5 {
        cursor.move_word_right(&buffer);
        stops.push(cursor.index);
    }
    assert_eq!(stops, vec![1, 2, 3, 4, 5]);
}

#[test]
fn word_left_crosses_a_newline_only_from_column_zero() {
    let buffer = buffer_of("ab\ncd");
    let mut cursor = Cursor::new();
    cursor.index = 3;
    cursor.move_word_left(&buffer);
    assert_eq!(cursor.index, 2);
    cursor.move_word_left(&buffer);
    assert_eq!(cursor.index, 0);
    cursor.index = 99;
    cursor.move_word_left(&buffer);
    assert_eq!(cursor.index, 5);
}

#[test]
fn delete_word_respects_line_boundary() {
    let mut editor = editor_of("line1\nline2\nline3");
    assert_eq!(editor.cursor.index, 17);
    editor.delete_word();
    assert_eq!(editor.buffer.as_str(), "line1\nline2\n");
    assert_eq!(editor.cursor.index, 12);
    editor.delete_word();
    assert_eq!(editor.buffer.as_str(), "line1\nline2");
    assert_eq!(editor.cursor.index, 11);
}

#[test]
fn extending_keeps_selection_ordered() {
    let mut editor = editor_of("abc\ndef ghi\njk");
    editor.cursor.index = 6;
    editor.extend_selection_left();
    editor.extend_selection_up();
    editor.extend_selection_word_right();
    editor.extend_selection_down();
    editor.extend_selection_down();
    editor.extend_selection_to_line_start();
    editor.extend_selection_word_left();
    editor.extend_selection_to_buffer_start();
    editor.extend_selection_right();
    editor.extend_selection_to_line_end();
    editor.extend_selection_to_buffer_end();
    let sel = editor.selection.unwrap();
    assert!(sel.start <= sel.end);
    assert_eq!(sel.tail(), 6);
    assert_eq!(sel.head(), editor.buffer.len());
    assert_eq!(editor.selection_range(), Some(6..14));
}

#[test]
fn extending_left_past_the_anchor_flips() {
    let mut editor = editor_of("abcdef");
    editor.cursor.index = 3;
    editor.extend_selection_right();
    assert_eq!(editor.selection, Some(Selection { start: 3, end: 4, reversed: false }));
    editor.extend_selection_left();
    editor.extend_selection_left();
    assert_eq!(editor.selection, Some(Selection { start: 2, end: 3, reversed: true }));
}

#[test]
fn inserting_an_emoji_advances_by_one() {
    let mut editor = editor_of("ab");
    editor.cursor.index = 1;
    editor.insert_char('🌍');
    assert_eq!(editor.cursor.index, 2);
    assert_eq!(editor.buffer.as_str(), "a🌍b");
    editor.paste("🗿🗿");
    assert_eq!(editor.cursor.index, 4);
}

#[test]
fn edits_clear_the_goal() {
    let mut editor = editor_of("abcdef\nab\nabcdef");
    editor.cursor.index = 5;
    editor.cursor.move_down(&editor.buffer);
    assert_eq!(editor.cursor.goal, CursorGoal::Column(5));
    editor.insert_char('x');
    assert_eq!(editor.cursor.goal, CursorGoal::Unset);
    editor.cursor.move_down(&editor.buffer);
    assert_eq!(editor.buffer.char_to_line_col(editor.cursor.index), (2, 3));
}

#[test]
fn delete_selection_out_of_range_clamps() {
    let mut editor = editor_of("hello");
    editor.select_range(3, 50);
    assert_eq!(editor.get_selected_text(), Some("lo".to_string()));
    assert_eq!(editor.delete_selection(), Some("lo".to_string()));
    assert_eq!(editor.buffer.as_str(), "hel");
    assert_eq!(editor.cursor.index, 3);
    editor.select_range(40, 50);
    assert_eq!(editor.cut(), Some(String::new()));
    assert_eq!(editor.buffer.as_str(), "hel");
    assert_eq!(editor.cursor.index, 3);
    assert!(!editor.has_selection());
}

#[test]
fn replace_selection_reversed() {
    let mut editor = editor_of("one two three");
    editor.select_range(7, 4);
    editor.replace_selection("2");
    assert_eq!(editor.buffer.as_str(), "one 2 three");
    assert_eq!(editor.cursor.index, 5);
    assert_eq!(editor.selection, None);
}

#[test]
fn select_line_and_word_on_empty_buffer() {
    let mut editor = Editor::new();
    editor.select_word_at(0);
    assert_eq!(editor.selection_range(), Some(0..0));
    editor.select_line_at(3);
    assert_eq!(editor.selection_range(), Some(0..0));
    editor.delete_line();
    assert_eq!(editor.buffer.as_str(), "");
    editor.backspace();
    editor.delete_word();
    assert_eq!(editor.cursor.index, 0);
}

#[test]
fn delete_line_in_the_middle() {
    let mut editor = editor_of("a\nbb\nc");
    editor.cursor.index = 3;
    editor.delete_line();
    assert_eq!(editor.buffer.as_str(), "a\nc");
    assert_eq!(editor.cursor.index, 2);
}

#[test]
fn selection_ends() {
    let sel = Selection::new(4, 4);
    assert!(sel.is_empty());
    assert_eq!(sel.head(), 4);
    assert_eq!(sel.tail(), 4);
    assert_eq!(sel.range(), 4..4);
}

