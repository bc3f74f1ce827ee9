use zlyph::{Command, EditorAction, HostStep, Key, KeyEvent, Modifiers, Motion, TextEditor};
use zlyph::input::translate_key_event;

fn press(code: Key, shift: bool, control: bool, alt: bool) -> KeyEvent {
    let mut modifiers = Modifiers::none();
    modifiers.shift = shift;
    modifiers.control = control;
    modifiers.alt = alt;
    KeyEvent { code, modifiers }
}

fn plain(code: Key) -> KeyEvent {
    press(code, false, false, false)
}

fn shift(code: Key) -> KeyEvent {
    press(code, true, false, false)
}

fn control(code: Key) -> KeyEvent {
    press(code, false, true, false)
}

fn alt(code: Key) -> KeyEvent {
    press(code, false, false, true)
}

#[test]
fn control_chords() {
    assert_eq!(translate_key_event(control(Key::Char('w'))), Some(Command::Quit));
    assert_eq!(translate_key_event(control(Key::Char('z'))), Some(Command::Undo));
    assert_eq!(translate_key_event(control(Key::Char('='))), Some(Command::IncreaseFontSize));
    assert_eq!(translate_key_event(control(Key::Char('-'))), Some(Command::DecreaseFontSize));
    assert_eq!(
        translate_key_event(control(Key::Char('a'))),
        Some(Command::Edit(EditorAction::SelectAll))
    );
    assert_eq!(translate_key_event(control(Key::Char('q'))), None);
}

#[test]
fn control_shift_chords() {
    let z = press(Key::Char('z'), true, true, false);
    let k = press(Key::Char('k'), true, true, false);
    let w = press(Key::Char('w'), true, true, false);
    assert_eq!(translate_key_event(z), Some(Command::Redo));
    assert_eq!(translate_key_event(k), Some(Command::DeleteLine));
    assert_eq!(translate_key_event(w), None);
    let z_alt = press(Key::Char('z'), true, true, true);
    assert_eq!(translate_key_event(z_alt), Some(Command::Redo));
    assert_eq!(translate_key_event(control(Key::Char('k'))), None);
}

#[test]
fn characters_are_typed() {
    assert_eq!(
        translate_key_event(plain(Key::Char('x'))),
        Some(Command::Edit(EditorAction::TypeCharacter('x')))
    );
    assert_eq!(
        translate_key_event(shift(Key::Char('X'))),
        Some(Command::Edit(EditorAction::TypeCharacter('X')))
    );
    assert_eq!(
        translate_key_event(plain(Key::Char('w'))),
        Some(Command::Edit(EditorAction::TypeCharacter('w')))
    );
    assert_eq!(translate_key_event(alt(Key::Char('x'))), None);
    let mut logo = plain(Key::Char('x'));
    logo.modifiers.platform = true;
    assert_eq!(translate_key_event(logo), None);
    let mut meta = control(Key::Char('w'));
    meta.modifiers.meta = true;
    assert_eq!(translate_key_event(meta), None);
}

#[test]
fn tab_keys() {
    assert_eq!(translate_key_event(plain(Key::Tab)), Some(Command::Tab));
    assert_eq!(translate_key_event(shift(Key::Tab)), Some(Command::Outdent));
    assert_eq!(translate_key_event(control(Key::Tab)), None);
}

#[test]
fn arrow_keys() {
    let moved = |motion| Some(Command::Edit(EditorAction::Move(motion)));
    let selected = |motion| Some(Command::Edit(EditorAction::Select(motion)));
    assert_eq!(translate_key_event(plain(Key::Left)), moved(Motion::Left));
    assert_eq!(translate_key_event(plain(Key::Right)), moved(Motion::Right));
    assert_eq!(translate_key_event(plain(Key::Up)), moved(Motion::Up));
    assert_eq!(translate_key_event(plain(Key::Down)), moved(Motion::Down));
    assert_eq!(translate_key_event(shift(Key::Left)), selected(Motion::Left));
    assert_eq!(translate_key_event(shift(Key::Right)), selected(Motion::Right));
    assert_eq!(translate_key_event(shift(Key::Up)), selected(Motion::Up));
    assert_eq!(translate_key_event(shift(Key::Down)), selected(Motion::Down));
    assert_eq!(translate_key_event(alt(Key::Up)), Some(Command::MoveLineUp));
    assert_eq!(translate_key_event(alt(Key::Down)), Some(Command::MoveLineDown));
    assert_eq!(translate_key_event(alt(Key::Left)), moved(Motion::Left));
    assert_eq!(translate_key_event(control(Key::Right)), moved(Motion::Right));
    assert_eq!(translate_key_event(press(Key::Up, true, false, true)), moved(Motion::Up));
    assert_eq!(translate_key_event(press(Key::Left, true, true, false)), moved(Motion::Left));
}

#[test]
fn editing_keys() {
    assert_eq!(
        translate_key_event(plain(Key::Home)),
        Some(Command::Edit(EditorAction::Move(Motion::LineStart)))
    );
    assert_eq!(
        translate_key_event(shift(Key::End)),
        Some(Command::Edit(EditorAction::Move(Motion::LineEnd)))
    );
    assert_eq!(
        translate_key_event(plain(Key::Backspace)),
        Some(Command::Edit(EditorAction::Backspace))
    );
    assert_eq!(
        translate_key_event(control(Key::Delete)),
        Some(Command::Edit(EditorAction::Delete))
    );
    assert_eq!(
        translate_key_event(plain(Key::Enter)),
        Some(Command::Edit(EditorAction::Newline))
    );
    assert_eq!(translate_key_event(plain(Key::Other)), None);
    assert_eq!(translate_key_event(control(Key::Other)), None);
}

#[test]
fn key_events_edit_and_tell_the_host_how_to_go_on() {
    let mut editor = TextEditor::new();
    assert_eq!(editor.handle_key_event(plain(Key::Char('h'))), HostStep::Save);
    assert_eq!(editor.handle_key_event(shift(Key::Char('I'))), HostStep::Save);
    assert_eq!(editor.handle_key_event(plain(Key::Enter)), HostStep::Save);
    assert_eq!(editor.content(), "hI\n");
    assert_eq!(editor.cursor_offset(), 3);
    assert_eq!(editor.handle_key_event(plain(Key::Other)), HostStep::Ignore);
    assert_eq!(editor.handle_key_event(control(Key::Char('z'))), HostStep::Save);
    assert_eq!(editor.handle_key_event(plain(Key::Tab)), HostStep::Save);
    assert_eq!(editor.content(), "hI\n");
    assert_eq!(editor.handle_key_event(control(Key::Char('a'))), HostStep::Save);
    assert_eq!(editor.selection_range(), Some((0, 3)));
    assert_eq!(editor.handle_key_event(control(Key::Char('w'))), HostStep::SaveAndQuit);
    assert_eq!(editor.content(), "hI\n");
    assert_eq!(editor.selection_range(), Some((0, 3)));
    assert_eq!(editor.handle_key_event(plain(Key::Backspace)), HostStep::Save);
    assert_eq!(editor.content(), "");
}

#[test]
fn actions_report_redraw_and_clipboard() {
    let mut editor = TextEditor::from_text("hello");
    let outcome = editor.handle_action(EditorAction::Move(Motion::Left), None);
    assert!(!outcome.redraw);
    assert_eq!(outcome.clipboard, None);
    let outcome = editor.handle_action(EditorAction::Copy, None);
    assert!(!outcome.redraw);
    assert_eq!(outcome.clipboard, None);
    let outcome = editor.handle_action(EditorAction::Cut, None);
    assert!(!outcome.redraw);
    assert_eq!(outcome.clipboard, None);
    let outcome = editor.handle_action(EditorAction::Paste, None);
    assert!(!outcome.redraw);
    assert_eq!(editor.content(), "hello");

    let outcome = editor.handle_action(EditorAction::Select(Motion::WordRight), None);
    assert!(outcome.redraw);
    let outcome = editor.handle_action(EditorAction::Copy, None);
    assert!(!outcome.redraw);
    assert_eq!(outcome.clipboard, Some(String::from("hello")));
    let outcome = editor.handle_action(EditorAction::Cut, None);
    assert!(outcome.redraw);
    assert_eq!(outcome.clipboard, Some(String::from("hello")));
    assert_eq!(editor.content(), "");
    let outcome = editor.handle_action(EditorAction::Paste, Some("hello"));
    assert!(outcome.redraw);
    assert_eq!(outcome.clipboard, None);
    assert_eq!(editor.content(), "hello");
    assert_eq!(editor.cursor_offset(), 5);
}

#[test]
fn every_action_is_performed() {
    let mut editor = TextEditor::from_text("ab\ncd");
    assert!(editor.handle_action(EditorAction::Move(Motion::Down), None).redraw);
    assert_eq!(editor.cursor_offset(), 3);
    assert!(editor.handle_action(EditorAction::TypeCharacter('é'), None).redraw);
    assert_eq!(editor.content(), "ab\nécd");
    assert!(editor.handle_action(EditorAction::Newline, None).redraw);
    assert_eq!(editor.content(), "ab\né\ncd");
    assert!(editor.handle_action(EditorAction::Backspace, None).redraw);
    assert_eq!(editor.content(), "ab\nécd");
    assert!(editor.handle_action(EditorAction::Delete, None).redraw);
    assert_eq!(editor.content(), "ab\néd");
    assert!(editor.handle_action(EditorAction::DeleteToBeginningOfLine, None).redraw);
    assert_eq!(editor.content(), "ab\nd");
    assert!(editor.handle_action(EditorAction::DeleteToEndOfLine, None).redraw);
    assert_eq!(editor.content(), "ab\n");
    assert!(editor.handle_action(EditorAction::SelectAll, None).redraw);
    assert_eq!(editor.selection_range(), Some((0, 3)));
    assert!(editor.handle_action(EditorAction::Paste, Some("x")).redraw);
    assert_eq!(editor.content(), "x");
}
