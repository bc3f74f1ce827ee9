use zlyph::{EditorAction, Motion, TextEditor};

const MOTIONS: [Motion; 8] = [
    Motion::Left,
    Motion::Right,
    Motion::Up,
    Motion::Down,
    Motion::WordLeft,
    Motion::WordRight,
    Motion::LineStart,
    Motion::LineEnd,
];

const TYPED: [char; 8] = ['a', ' ', '\n', 'é', '€', '😀', '_', '+'];

fn next(seed: &mut u64) -> usize {
    *seed = seed.wrapping_mul(6364136223846793005).wrapping_add(1442695040888963407);
    (*seed >> 33) as usize
}

fn check(editor: &TextEditor) {
    assert!(editor.is_sound());
    let text = editor.content();
    assert!(editor.cursor_offset() <= text.len());
    assert!(text.is_char_boundary(editor.cursor_offset()));
    if let Some((start, end)) = editor.selection_range() {
        assert!(start <= end && end <= text.len());
        assert!(text.is_char_boundary(start));
        assert!(text.is_char_boundary(end));
    }
}

#[test]
fn offsets_stay_on_boundaries_whatever_happens() {
    let mut seed: u64 = 7;
    let mut editor = TextEditor::from_text("héllo wörld\n€uro 😀\n\nfoo_bar baz");
    check(&editor);
    for _ in 0..4000 {
        let pick = next(&mut seed) % 16;
        let motion = MOTIONS[next(&mut seed) % 8];
        let typed = TYPED[next(&mut seed) % 8];
        let line = (next(&mut seed) % 6) as u64;
        let column = (next(&mut seed) % 14) as u64;
        match pick {
            0 | 1 => {
                editor.handle_action(EditorAction::Move(motion), None);
            }
            2 | 3 => {
                editor.handle_action(EditorAction::Select(motion), None);
            }
            4 | 5 => {
                editor.handle_action(EditorAction::TypeCharacter(typed), None);
            }
            6 => {
                editor.handle_action(EditorAction::Backspace, None);
            }
            7 => {
                editor.handle_action(EditorAction::Delete, None);
            }
            8 => {
                editor.handle_action(EditorAction::DeleteToBeginningOfLine, None);
            }
            9 => {
                editor.handle_action(EditorAction::DeleteToEndOfLine, None);
            }
            10 => {
                let outcome = editor.handle_action(EditorAction::Cut, None);
                let clip = outcome.clipboard;
                editor.handle_action(EditorAction::Move(motion), None);
                editor.handle_action(EditorAction::Paste, clip.as_deref());
            }
            11 => {
                editor.handle_action(EditorAction::Newline, None);
            }
            12 => {
                editor.handle_mouse_down(line, column);
            }
            13 => {
                editor.handle_mouse_move(line, column);
            }
            14 => {
                editor.handle_mouse_up();
            }
            _ => {
                if next(&mut seed) % 8 == 0 {
                    editor.handle_action(EditorAction::SelectAll, None);
                }
            }
        }
        check(&editor);
    }
}

#[test]
fn is_sound_holds_of_fresh_editors() {
    assert!(TextEditor::new().is_sound());
    assert!(TextEditor::from_text("€").is_sound());
}

#[test]
fn display_and_views_agree_on_the_line_of_the_cursor() {
    let mut seed: u64 = 99;
    let mut editor = TextEditor::from_text("ab\ncdé\n\nxyz");
    for _ in 0..200 {
        let motion = MOTIONS[next(&mut seed) % 8];
        if next(&mut seed) % 3 == 0 {
            editor.extend_selection(motion);
        } else {
            editor.move_cursor(motion);
        }
        let views = editor.line_views();
        let (line, column) = editor.cursor_line_and_column();
        assert_eq!(views.len(), editor.content().split('\n').count());
        for (index, view) in views.iter().enumerate() {
            assert_eq!(view.cursor, if index == line { Some(column) } else { None });
            assert_eq!(view.start + column == editor.cursor_offset(), index == line);
        }
        assert_eq!(editor.display_text().split('\n').count(), views.len());
    }
}
