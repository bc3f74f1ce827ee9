use zlyph::{Motion, TextEditor};

fn place(text: &str, offset: usize) -> TextEditor {
    let mut editor = TextEditor::from_text(text);
    while editor.cursor_offset() < offset {
        editor.move_right();
    }
    assert_eq!(editor.cursor_offset(), offset);
    editor
}

#[test]
fn move_right_steps_over_whole_characters() {
    let mut editor = TextEditor::from_text("aé€😀b");
    let mut seen = vec![editor.cursor_offset()];
    while editor.move_right() {
        seen.push(editor.cursor_offset());
    }
    assert_eq!(seen, vec![0, 1, 3, 6, 10, 11]);
    assert!(!editor.move_right());
    assert_eq!(editor.cursor_offset(), 11);
}

#[test]
fn move_left_steps_over_whole_characters() {
    let mut editor = place("aé€😀b", 11);
    let mut seen = vec![editor.cursor_offset()];
    while editor.move_left() {
        seen.push(editor.cursor_offset());
    }
    assert_eq!(seen, vec![11, 10, 6, 3, 1, 0]);
    assert!(!editor.move_left());
    assert_eq!(editor.cursor_offset(), 0);
}

#[test]
fn left_then_right_restores_the_offset() {
    for offset in [1usize, 3, 6, 10, 11] {
        let mut editor = place("aé€😀b", offset);
        assert!(editor.move_left());
        assert!(editor.move_right());
        assert_eq!(editor.cursor_offset(), offset);
        assert_eq!(editor.content(), "aé€😀b");
    }
}

#[test]
fn steps_at_the_ends_do_nothing() {
    let mut editor = TextEditor::from_text("abc");
    assert!(!editor.move_left());
    assert_eq!(editor.cursor_offset(), 0);
    let mut editor = place("abc", 3);
    assert!(!editor.move_right());
    assert_eq!(editor.cursor_offset(), 3);
    let mut editor = TextEditor::new();
    assert!(!editor.move_left());
    assert!(!editor.move_right());
    assert_eq!(editor.cursor_offset(), 0);
}

#[test]
fn plain_motion_drops_the_selection() {
    let mut editor = TextEditor::from_text("abc");
    editor.select_all();
    assert!(!editor.move_right());
    assert_eq!(editor.selection_range(), None);
    assert_eq!(editor.cursor_offset(), 3);
    editor.select_all();
    assert!(editor.move_left());
    assert_eq!(editor.selection_range(), None);
    assert_eq!(editor.cursor_offset(), 2);
}

#[test]
fn up_then_down_restores_the_column() {
    let mut editor = place("abcd\nefgh\nijkl", 8);
    assert!(editor.move_up());
    assert_eq!(editor.cursor_offset(), 3);
    assert!(editor.move_down());
    assert_eq!(editor.cursor_offset(), 8);
}

#[test]
fn up_and_down_keep_the_column_as_far_as_the_line_reaches() {
    let mut editor = place("ab\nlonger\nxyz", 8);
    assert!(editor.move_up());
    assert_eq!(editor.cursor_offset(), 2);
    assert!(editor.move_down());
    assert_eq!(editor.cursor_offset(), 5);
    let mut editor = place("ab\nlonger\nxyz", 9);
    assert!(editor.move_down());
    assert_eq!(editor.cursor_offset(), 13);
}

#[test]
fn up_and_down_never_land_inside_a_character() {
    let mut editor = place("a€\nabcd", 8);
    assert!(editor.move_up());
    assert_eq!(editor.cursor_offset(), 1);
    assert!(editor.move_down());
    assert_eq!(editor.cursor_offset(), 6);
    let mut editor = place("abcd\n😀x", 2);
    assert!(editor.move_down());
    assert_eq!(editor.cursor_offset(), 5);
}

#[test]
fn up_on_the_first_line_stays() {
    let mut editor = place("hello\nworld", 3);
    assert!(!editor.move_up());
    assert_eq!(editor.cursor_offset(), 3);
}

#[test]
fn down_on_the_last_line_stays() {
    let mut editor = place("hello\nworld", 8);
    assert!(!editor.move_down());
    assert_eq!(editor.cursor_offset(), 8);
    let mut editor = TextEditor::new();
    assert!(!editor.move_down());
    assert!(!editor.move_up());
}

#[test]
fn down_reaches_an_empty_last_line() {
    let mut editor = place("abc\n", 1);
    assert!(editor.move_down());
    assert_eq!(editor.cursor_offset(), 4);
    assert!(editor.move_up());
    assert_eq!(editor.cursor_offset(), 0);
}

#[test]
fn line_start_and_end() {
    let mut editor = place("hello\nworld", 8);
    assert!(editor.move_to_beginning_of_line());
    assert_eq!(editor.cursor_offset(), 6);
    assert!(editor.move_to_beginning_of_line());
    assert_eq!(editor.cursor_offset(), 6);
    assert!(editor.move_to_end_of_line());
    assert_eq!(editor.cursor_offset(), 11);
    let mut editor = place("hello\nworld", 2);
    assert!(editor.move_to_end_of_line());
    assert_eq!(editor.cursor_offset(), 5);
    assert!(editor.move_to_beginning_of_line());
    assert_eq!(editor.cursor_offset(), 0);
}

#[test]
fn word_left_twice_reaches_the_start() {
    let mut editor = place("foo_bar baz", 11);
    assert!(editor.move_word_left());
    assert_eq!(editor.cursor_offset(), 8);
    assert!(editor.move_word_left());
    assert_eq!(editor.cursor_offset(), 0);
    assert!(!editor.move_word_left());
    assert_eq!(editor.cursor_offset(), 0);
}

#[test]
fn word_right_passes_space_and_then_one_run() {
    let mut editor = TextEditor::from_text("hello, world");
    assert!(editor.move_word_right());
    assert_eq!(editor.cursor_offset(), 5);
    assert!(editor.move_word_right());
    assert_eq!(editor.cursor_offset(), 6);
    assert!(editor.move_word_right());
    assert_eq!(editor.cursor_offset(), 12);
    assert!(!editor.move_word_right());
    assert_eq!(editor.cursor_offset(), 12);
}

#[test]
fn word_left_passes_space_and_then_one_run() {
    let mut editor = place("hello, world", 12);
    assert!(editor.move_word_left());
    assert_eq!(editor.cursor_offset(), 7);
    assert!(editor.move_word_left());
    assert_eq!(editor.cursor_offset(), 5);
    assert!(editor.move_word_left());
    assert_eq!(editor.cursor_offset(), 0);
}

#[test]
fn word_motion_counts_bytes_of_wide_characters() {
    let mut editor = TextEditor::from_text("héllo wörld");
    assert!(editor.move_word_right());
    assert_eq!(editor.cursor_offset(), 6);
    assert!(editor.move_word_right());
    assert_eq!(editor.cursor_offset(), 13);
    assert!(editor.move_word_left());
    assert_eq!(editor.cursor_offset(), 7);
    assert!(editor.move_word_left());
    assert_eq!(editor.cursor_offset(), 0);
}

#[test]
fn word_motion_over_symbols_and_space() {
    let mut editor = place("foo+=bar", 8);
    assert!(editor.move_word_left());
    assert_eq!(editor.cursor_offset(), 5);
    assert!(editor.move_word_left());
    assert_eq!(editor.cursor_offset(), 3);
    assert!(editor.move_word_left());
    assert_eq!(editor.cursor_offset(), 0);

    let mut editor = place("   ", 3);
    assert!(editor.move_word_left());
    assert_eq!(editor.cursor_offset(), 0);
    assert!(editor.move_word_right());
    assert_eq!(editor.cursor_offset(), 3);

    let mut editor = place("a  ", 3);
    assert!(editor.move_word_left());
    assert_eq!(editor.cursor_offset(), 0);

    let mut editor = place(" a", 2);
    assert!(editor.move_word_left());
    assert_eq!(editor.cursor_offset(), 1);
    assert!(editor.move_word_left());
    assert_eq!(editor.cursor_offset(), 0);
}

#[test]
fn word_motion_crosses_lines() {
    let mut editor = place("one\ntwo", 3);
    assert!(editor.move_word_right());
    assert_eq!(editor.cursor_offset(), 7);
    assert!(editor.move_word_left());
    assert_eq!(editor.cursor_offset(), 4);
}

#[test]
fn select_all_spans_the_text() {
    let mut editor = place("héllo", 3);
    assert!(editor.select_all());
    assert_eq!(editor.selection_anchor(), Some(0));
    assert_eq!(editor.cursor_offset(), 6);
    assert_eq!(editor.selection_range(), Some((0, 6)));
    assert!(editor.has_selection());
}

#[test]
fn extending_keeps_the_anchor() {
    let mut editor = place("hello world", 6);
    assert!(editor.extend_selection(Motion::Right));
    assert!(editor.extend_selection(Motion::Right));
    assert_eq!(editor.selection_anchor(), Some(6));
    assert_eq!(editor.selection_range(), Some((6, 8)));
    assert!(editor.extend_selection(Motion::WordLeft));
    assert_eq!(editor.cursor_offset(), 6);
    assert!(!editor.has_selection());
    assert!(editor.extend_selection(Motion::WordLeft));
    assert_eq!(editor.cursor_offset(), 0);
    assert_eq!(editor.selection_anchor(), Some(6));
    assert_eq!(editor.selection_range(), Some((0, 6)));
    assert!(editor.extend_selection(Motion::LineEnd));
    assert_eq!(editor.selection_range(), Some((6, 11)));
    assert!(!editor.extend_selection(Motion::Down));
    assert_eq!(editor.selection_range(), Some((6, 11)));
}

#[test]
fn extending_up_and_down() {
    let mut editor = place("abcd\nefgh\nijkl", 7);
    assert!(editor.extend_selection(Motion::Up));
    assert_eq!(editor.selection_range(), Some((2, 7)));
    assert!(editor.extend_selection(Motion::Down));
    assert!(editor.extend_selection(Motion::Down));
    assert_eq!(editor.selection_range(), Some((7, 12)));
    assert!(editor.extend_selection(Motion::LineStart));
    assert_eq!(editor.selection_range(), Some((7, 10)));
}

#[test]
fn destination_tells_where_a_motion_leads() {
    let editor = place("héllo wörld\nnext", 7);
    assert_eq!(editor.destination(Motion::Left), 6);
    assert_eq!(editor.destination(Motion::Right), 8);
    assert_eq!(editor.destination(Motion::Up), 7);
    assert_eq!(editor.destination(Motion::Down), 18);
    assert_eq!(editor.destination(Motion::WordLeft), 0);
    assert_eq!(editor.destination(Motion::WordRight), 13);
    assert_eq!(editor.destination(Motion::LineStart), 0);
    assert_eq!(editor.destination(Motion::LineEnd), 13);
    assert!(editor.can_move(Motion::Left));
    assert!(editor.can_move(Motion::Right));
    assert!(!editor.can_move(Motion::Up));
    assert!(editor.can_move(Motion::Down));
    assert!(editor.can_move(Motion::LineStart));
    assert_eq!(editor.cursor_offset(), 7);
}
