use zlyph::hit::{cell_at, offset_at_cell, PADDING_LEFT, PADDING_TOP};
use zlyph::{DragState, TextEditor};

fn press(editor: &mut TextEditor, x: u32, y: u32) -> bool {
    let (line, column) = cell_at(x, y, 24);
    editor.handle_mouse_down(line, column)
}

fn drag(editor: &mut TextEditor, x: u32, y: u32) -> bool {
    let (line, column) = cell_at(x, y, 24);
    editor.handle_mouse_move(line, column)
}

#[test]
fn padding_is_forty_above_and_sixteen_left() {
    assert_eq!(PADDING_TOP, 40);
    assert_eq!(PADDING_LEFT, 16);
}

#[test]
fn cell_at_divides_by_the_fixed_metrics() {
    // At size 24 a character is 14.4 wide and a line 36 high.
    assert_eq!(cell_at(16, 40, 24), (0, 0));
    assert_eq!(cell_at(16 + 14, 40 + 35, 24), (0, 0));
    assert_eq!(cell_at(16 + 15, 40 + 36, 24), (1, 1));
    assert_eq!(cell_at(16 + 143, 40 + 71, 24), (1, 9));
    assert_eq!(cell_at(16 + 144, 40 + 72, 24), (2, 10));
    // At size 10 a character is 6 wide and a line 15 high.
    assert_eq!(cell_at(16 + 5, 40 + 14, 10), (0, 0));
    assert_eq!(cell_at(16 + 6, 40 + 15, 10), (1, 1));
    assert_eq!(cell_at(16 + 600, 40 + 1500, 10), (100, 100));
}

#[test]
fn cell_at_holds_points_in_the_padding_to_zero() {
    assert_eq!(cell_at(0, 0, 24), (0, 0));
    assert_eq!(cell_at(15, 39, 24), (0, 0));
    assert_eq!(cell_at(16, 200, 24), (4, 0));
    assert_eq!(cell_at(200, 40, 24), (0, 12));
}

#[test]
fn cell_at_takes_the_largest_coordinates() {
    let far: u64 = (u32::MAX - 16) as u64;
    let low: u64 = (u32::MAX - 40) as u64;
    assert_eq!(cell_at(u32::MAX, u32::MAX, 1), (10 * low / 15, 10 * far / 6));
    assert_eq!(cell_at(u32::MAX, u32::MAX, u32::MAX), (0, 1));
}

#[test]
fn hit_test_on_empty_buffer_is_zero() {
    let editor = TextEditor::new();
    assert_eq!(editor.position_from_mouse(0, 0, 24), 0);
    assert_eq!(editor.position_from_mouse(500, 700, 8), 0);
    assert_eq!(editor.position_from_mouse(u32::MAX, u32::MAX, 1), 0);
    assert_eq!(editor.position_from_mouse(u32::MAX, u32::MAX, u32::MAX), 0);
    assert_eq!(offset_at_cell("", 0, 0), 0);
    assert_eq!(offset_at_cell("", u64::MAX, u64::MAX), 0);
}

#[test]
fn hit_test_finds_line_and_column() {
    let editor = TextEditor::from_text("hello\nworld");
    assert_eq!(editor.position_from_mouse(16, 40, 24), 0);
    assert_eq!(editor.position_from_mouse(16 + 36, 40 + 36 + 5, 24), 8);
    assert_eq!(editor.position_from_mouse(16 + 29, 40, 24), 2);
    assert_eq!(editor.position_from_mouse(16 + 28, 40, 24), 1);
}

#[test]
fn hit_test_holds_the_cell_to_the_text() {
    let editor = TextEditor::from_text("hello\nworld!");
    assert_eq!(editor.position_from_mouse(10_000, 40, 24), 5);
    assert_eq!(editor.position_from_mouse(10_000, 40 + 36, 24), 12);
    assert_eq!(editor.position_from_mouse(16 + 15, 10_000, 24), 7);
    assert_eq!(editor.position_from_mouse(10_000, 10_000, 24), 12);
    assert_eq!(offset_at_cell("hello\nworld!", 0, 5), 5);
    assert_eq!(offset_at_cell("hello\nworld!", 0, 6), 5);
    assert_eq!(offset_at_cell("hello\nworld!", 1, 0), 6);
    assert_eq!(offset_at_cell("hello\nworld!", 2, 0), 6);
    assert_eq!(offset_at_cell("hello\nworld!", u64::MAX, u64::MAX), 12);
}

#[test]
fn hit_test_counts_characters_not_bytes() {
    assert_eq!(offset_at_cell("héllo", 0, 1), 1);
    assert_eq!(offset_at_cell("héllo", 0, 2), 3);
    assert_eq!(offset_at_cell("a\n€😀z", 1, 1), 5);
    assert_eq!(offset_at_cell("a\n€😀z", 1, 2), 9);
    assert_eq!(offset_at_cell("a\n€😀z", 1, 3), 10);
    assert_eq!(offset_at_cell("a\n€😀z", 1, 4), 10);
}

#[test]
fn hit_test_reaches_an_empty_last_line() {
    assert_eq!(offset_at_cell("abc\n", 1, 0), 4);
    assert_eq!(offset_at_cell("abc\n", 1, 7), 4);
    assert_eq!(offset_at_cell("abc\n\nx", 1, 3), 4);
    assert_eq!(offset_at_cell("abc\n\nx", 2, 3), 6);
}

#[test]
fn cells_are_held_to_the_text() {
    let editor = TextEditor::from_text("héllo\nwörld!");
    assert_eq!(editor.position_from_cell(0, 2), 3);
    assert_eq!(editor.position_from_cell(1, 2), 10);
    assert_eq!(editor.position_from_cell(1, 99), 14);
    assert_eq!(editor.position_from_cell(99, 0), 7);
    assert_eq!(editor.position_from_cell(0, 99), 6);
    assert_eq!(TextEditor::new().position_from_cell(3, 4), 0);
}

#[test]
fn press_sets_cursor_and_anchor_and_begins_a_drag() {
    let mut editor = TextEditor::from_text("hello\nworld");
    assert_eq!(editor.drag_state(), DragState::Idle);
    assert!(press(&mut editor, 16 + 30, 40 + 40));
    assert_eq!(editor.drag_state(), DragState::Dragging);
    assert_eq!(editor.cursor_offset(), 8);
    assert_eq!(editor.selection_anchor(), Some(8));
}

#[test]
fn moves_during_a_drag_carry_the_cursor() {
    let mut editor = TextEditor::from_text("hello\nworld");
    press(&mut editor, 16 + 30, 40 + 40);
    assert!(drag(&mut editor, 16 + 60, 40));
    assert_eq!(editor.cursor_offset(), 4);
    assert_eq!(editor.selection_anchor(), Some(8));
    assert_eq!(editor.selection_range(), Some((4, 8)));
    assert!(editor.handle_mouse_up());
    assert_eq!(editor.drag_state(), DragState::Idle);
    assert_eq!(editor.selection_range(), Some((4, 8)));
    assert_eq!(editor.copy(), Some(String::from("o\nwo")));
}

#[test]
fn moves_without_a_drag_do_nothing() {
    let mut editor = TextEditor::from_text("hello");
    assert!(!drag(&mut editor, 16 + 60, 40));
    assert_eq!(editor.cursor_offset(), 0);
    assert_eq!(editor.selection_range(), None);
    press(&mut editor, 16 + 15, 40);
    editor.handle_mouse_up();
    assert!(!drag(&mut editor, 16 + 60, 40));
    assert_eq!(editor.cursor_offset(), 1);
}

#[test]
fn a_click_leaves_no_selection() {
    let mut editor = TextEditor::from_text("hello");
    press(&mut editor, 16 + 45, 40);
    assert_eq!(editor.selection_range(), Some((3, 3)));
    assert!(editor.handle_mouse_up());
    assert_eq!(editor.selection_range(), None);
    assert_eq!(editor.cursor_offset(), 3);
    assert_eq!(editor.drag_state(), DragState::Idle);
}

#[test]
fn a_drag_back_to_the_start_leaves_no_selection() {
    let mut editor = TextEditor::from_text("hello");
    press(&mut editor, 16 + 45, 40);
    drag(&mut editor, 16 + 75, 40);
    assert_eq!(editor.selection_range(), Some((3, 5)));
    drag(&mut editor, 16 + 45, 40);
    editor.handle_mouse_up();
    assert_eq!(editor.selection_range(), None);
}

#[test]
fn release_without_a_press_only_asks_for_a_redraw() {
    let mut editor = TextEditor::from_text("hello");
    editor.select_all();
    assert!(editor.handle_mouse_up());
    assert_eq!(editor.selection_range(), Some((0, 5)));
    assert_eq!(editor.drag_state(), DragState::Idle);
}
