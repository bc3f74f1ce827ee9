//! Keys as a host reports them, and the commands that they stand for.

use crate::action::EditorAction;
use crate::editor::TextEditor;
use crate::motion::Motion;
use vstd::prelude::*;
use vstd::string::*;

verus! {

/// The modifier keys held down with a key.
#[derive(Clone, Copy, Debug, PartialEq, Eq, Structural)]
pub struct Modifiers {
    /// Shift.
    pub shift: bool,
    /// Control.
    pub control: bool,
    /// Alt or Option.
    pub alt: bool,
    /// The platform key: Command, Windows or Super.
    pub platform: bool,
    /// The function key.
    pub function: bool,
    /// Hyper.
    pub hyper: bool,
    /// Meta.
    pub meta: bool,
}

impl Modifiers {
    /// No modifier is held but, possibly, those named by the three arguments.
    pub open spec fn none_but(self, shift: bool, control: bool, alt: bool) -> bool {
        &&& (self.shift ==> shift)
        &&& (self.control ==> control)
        &&& (self.alt ==> alt)
        &&& !self.platform
        &&& !self.function
        &&& !self.hyper
        &&& !self.meta
    }

    /// No modifier is held.
    pub open spec fn is_none(self) -> bool {
        self.none_but(false, false, false)
    }

    /// Shift is held and nothing else.
    pub open spec fn only_shift(self) -> bool {
        self.shift && self.none_but(true, false, false)
    }

    /// Control is held and nothing else.
    pub open spec fn only_control(self) -> bool {
        self.control && self.none_but(false, true, false)
    }

    /// Alt is held and nothing else.
    pub open spec fn only_alt(self) -> bool {
        self.alt && self.none_but(false, false, true)
    }

    /// A modifier is held that turns a key into a shortcut: Control, Alt or
    /// the platform key.
    pub open spec fn decorates(self) -> bool {
        self.platform || self.control || self.alt
    }

    /// No modifiers.
    pub fn none() -> (m: Self)
        ensures
            m.is_none(),
            !m.decorates(),
    {
        Modifiers {
            shift: false,
            control: false,
            alt: false,
            platform: false,
            function: false,
            hyper: false,
            meta: false,
        }
    }

    fn lone(&self) -> (b: bool)
        ensures
            b == (!self.platform && !self.function && !self.hyper && !self.meta),
    {
        !self.platform && !self.function && !self.hyper && !self.meta
    }
}

/// A key of the keyboard.
#[derive(Clone, Copy, Debug, PartialEq, Eq)]
pub enum Key {
    /// A key that types a character.
    Char(char),
    /// Tab.
    Tab,
    /// Arrow up.
    Up,
    /// Arrow down.
    Down,
    /// Arrow left.
    Left,
    /// Arrow right.
    Right,
    /// Home.
    Home,
    /// End.
    End,
    /// Backspace.
    Backspace,
    /// Delete.
    Delete,
    /// Enter.
    Enter,
    /// Any other key.
    Other,
}

/// A key press: the key and the modifiers held with it.
#[derive(Clone, Copy, Debug, PartialEq, Eq)]
pub struct KeyEvent {
    /// The key.
    pub code: Key,
    /// The modifiers held with it.
    pub modifiers: Modifiers,
}

/// What a key press asks for. An edit is the editor's to perform; the others
/// are the host's.
#[derive(Clone, Copy, Debug, PartialEq, Eq)]
pub enum Command {
    /// Leave the editor.
    Quit,
    /// Take back the last change.
    Undo,
    /// Bring back the change last taken back.
    Redo,
    /// Delete the line of the cursor.
    DeleteLine,
    /// Make the font larger.
    IncreaseFontSize,
    /// Make the font smaller.
    DecreaseFontSize,
    /// Indent.
    Tab,
    /// Take one level of indentation away.
    Outdent,
    /// Move the line of the cursor up.
    MoveLineUp,
    /// Move the line of the cursor down.
    MoveLineDown,
    /// Perform an editing action.
    Edit(EditorAction),
}

/// The command for a key that types the character `c`.
pub open spec fn command_for_char(c: char, m: Modifiers) -> Option<Command> {
    if c == 'w' && m.only_control() {
        Some(Command::Quit)
    } else if c == 'z' && m.control && m.shift {
        Some(Command::Redo)
    } else if c == 'z' && m.only_control() {
        Some(Command::Undo)
    } else if c == 'k' && m.control && m.shift {
        Some(Command::DeleteLine)
    } else if c == '=' && m.only_control() {
        Some(Command::IncreaseFontSize)
    } else if c == '-' && m.only_control() {
        Some(Command::DecreaseFontSize)
    } else if c == 'a' && m.only_control() {
        Some(Command::Edit(EditorAction::SelectAll))
    } else if m.is_none() || m.only_shift() {
        Some(Command::Edit(EditorAction::TypeCharacter(c)))
    } else {
        None
    }
}

/// The command for an arrow key: Shift alone extends the selection, anything
/// else moves the cursor.
pub open spec fn command_for_arrow(motion: Motion, m: Modifiers) -> Command {
    if m.only_shift() {
        Command::Edit(EditorAction::Select(motion))
    } else {
        Command::Edit(EditorAction::Move(motion))
    }
}

/// The command that a key press stands for, if it stands for any.
pub open spec fn command_for(event: KeyEvent) -> Option<Command> {
    let m = event.modifiers;
    match event.code {
        Key::Char(c) => command_for_char(c, m),
        Key::Tab => if m.only_shift() {
            Some(Command::Outdent)
        } else if m.is_none() {
            Some(Command::Tab)
        } else {
            None
        },
        Key::Up => if m.only_alt() {
            Some(Command::MoveLineUp)
        } else {
            Some(command_for_arrow(Motion::Up, m))
        },
        Key::Down => if m.only_alt() {
            Some(Command::MoveLineDown)
        } else {
            Some(command_for_arrow(Motion::Down, m))
        },
        Key::Left => Some(command_for_arrow(Motion::Left, m)),
        Key::Right => Some(command_for_arrow(Motion::Right, m)),
        Key::Home => Some(Command::Edit(EditorAction::Move(Motion::LineStart))),
        Key::End => Some(Command::Edit(EditorAction::Move(Motion::LineEnd))),
        Key::Backspace => Some(Command::Edit(EditorAction::Backspace)),
        Key::Delete => Some(Command::Edit(EditorAction::Delete)),
        Key::Enter => Some(Command::Edit(EditorAction::Newline)),
        Key::Other => None,
    }
}

/// What the host does after a key press.
#[derive(Clone, Copy, Debug, PartialEq, Eq, Structural)]
pub enum HostStep {
    /// Nothing: the key stands for no command.
    Ignore,
    /// Save the text and leave.
    SaveAndQuit,
    /// Save the text and go on.
    Save,
}

/// What the host does after a key press that stands for `command`.
pub open spec fn step_for(command: Option<Command>) -> HostStep {
    match command {
        None => HostStep::Ignore,
        Some(Command::Quit) => HostStep::SaveAndQuit,
        Some(_) => HostStep::Save,
    }
}

/// Translates a key press into the command that it stands for.
pub fn translate_key_event(event: KeyEvent) -> (command: Option<Command>)
    ensures
        command == command_for(event),
{
    let m = event.modifiers;
    let lone = m.lone();
    let none = lone && !m.shift && !m.control && !m.alt;
    let only_shift = lone && m.shift && !m.control && !m.alt;
    let only_control = lone && !m.shift && m.control && !m.alt;
    let only_alt = lone && !m.shift && !m.control && m.alt;
    match event.code {
        Key::Char(c) => {
            if c == 'w' && only_control {
                Some(Command::Quit)
            } else if c == 'z' && m.control && m.shift {
                Some(Command::Redo)
            } else if c == 'z' && only_control {
                Some(Command::Undo)
            } else if c == 'k' && m.control && m.shift {
                Some(Command::DeleteLine)
            } else if c == '=' && only_control {
                Some(Command::IncreaseFontSize)
            } else if c == '-' && only_control {
                Some(Command::DecreaseFontSize)
            } else if c == 'a' && only_control {
                Some(Command::Edit(EditorAction::SelectAll))
            } else if none || only_shift {
                Some(Command::Edit(EditorAction::TypeCharacter(c)))
            } else {
                None
            }
        },
        Key::Tab => {
            if only_shift {
                Some(Command::Outdent)
            } else if none {
                Some(Command::Tab)
            } else {
                None
            }
        },
        Key::Up => {
            if only_alt {
                Some(Command::MoveLineUp)
            } else if only_shift {
                Some(Command::Edit(EditorAction::Select(Motion::Up)))
            } else {
                Some(Command::Edit(EditorAction::Move(Motion::Up)))
            }
        },
        Key::Down => {
            if only_alt {
                Some(Command::MoveLineDown)
            } else if only_shift {
                Some(Command::Edit(EditorAction::Select(Motion::Down)))
            } else {
                Some(Command::Edit(EditorAction::Move(Motion::Down)))
            }
        },
        Key::Left => {
            if only_shift {
                Some(Command::Edit(EditorAction::Select(Motion::Left)))
            } else {
                Some(Command::Edit(EditorAction::Move(Motion::Left)))
            }
        },
        Key::Right => {
            if only_shift {
                Some(Command::Edit(EditorAction::Select(Motion::Right)))
            } else {
                Some(Command::Edit(EditorAction::Move(Motion::Right)))
            }
        },
        Key::Home => Some(Command::Edit(EditorAction::Move(Motion::LineStart))),
        Key::End => Some(Command::Edit(EditorAction::Move(Motion::LineEnd))),
        Key::Backspace => Some(Command::Edit(EditorAction::Backspace)),
        Key::Delete => Some(Command::Edit(EditorAction::Delete)),
        Key::Enter => Some(Command::Edit(EditorAction::Newline)),
        Key::Other => None,
    }
}

impl TextEditor {
    /// A key goes down that may type text. Where `key_char` holds the text
    /// of the key and no modifier turns the key into a shortcut, the text is
    /// typed and a redraw is due; else nothing changes.
    pub fn handle_key_down(&mut self, key_char: Option<&str>, modifiers: Modifiers) -> (redraw:
        bool)
        requires
            old(self).wf(),
        ensures
            final(self).wf(),
            redraw == (key_char is Some && !modifiers.decorates()),
            match key_char {
                Some(text) if !modifiers.decorates() => final(self)@ == old(self)@.insert(
                    text.spec_bytes(),
                ),
                _ => final(self)@ == old(self)@,
            },
    {
        match key_char {
            Some(text) => {
                if !modifiers.platform && !modifiers.control && !modifiers.alt {
                    self.insert_text(text);
                    true
                } else {
                    false
                }
            },
            None => false,
        }
    }

    /// A key is pressed in a host that works by commands. An edit is
    /// performed, with an empty clipboard; any other command leaves the
    /// editor as it is. The answer tells the host how to go on.
    pub fn handle_key_event(&mut self, event: KeyEvent) -> (step: HostStep)
        requires
            old(self).wf(),
        ensures
            final(self).wf(),
            step == step_for(command_for(event)),
            match command_for(event) {
                Some(Command::Edit(action)) => final(self)@ == old(self)@.apply(action, None),
                _ => final(self)@ == old(self)@,
            },
    {
        match translate_key_event(event) {
            None => HostStep::Ignore,
            Some(Command::Quit) => HostStep::SaveAndQuit,
            Some(Command::Edit(action)) => {
                self.handle_action(action, None);
                HostStep::Save
            },
            Some(_) => HostStep::Save,
        }
    }
}

} // verus!
