//! The abstract actions that a host hands to the editor once it has decoded
//! its keys and menus, and what each does.

use crate::editor::TextEditor;
use crate::hit::{hit_offset, lemma_hit_offset};
use crate::motion::{applies, Motion};
use crate::state::EditorState;
use vstd::prelude::*;
use vstd::string::*;
use vstd::utf8::*;

verus! {

/// An editing action.
#[derive(Clone, Copy, Debug, PartialEq, Eq)]
pub enum EditorAction {
    /// Type one character.
    TypeCharacter(char),
    /// Break the line.
    Newline,
    /// Delete backwards.
    Backspace,
    /// Delete forwards.
    Delete,
    /// Delete from the start of the line to the cursor.
    DeleteToBeginningOfLine,
    /// Delete from the cursor to the end of the line.
    DeleteToEndOfLine,
    /// Move the cursor and drop the selection.
    Move(Motion),
    /// Move the cursor and extend the selection.
    Select(Motion),
    /// Select the whole text.
    SelectAll,
    /// Copy the selection to the clipboard.
    Copy,
    /// Move the selection to the clipboard.
    Cut,
    /// Put the clipboard's text in at the cursor.
    Paste,
}

/// What an action asks of the host.
pub struct Outcome {
    /// Whether the surface is to be drawn again.
    pub redraw: bool,
    /// Text to put on the clipboard, if any.
    pub clipboard: Option<String>,
}

/// Something that happens to an editor: an action, together with the text
/// that the clipboard holds at that moment, or a pointer event over a cell.
pub enum Event {
    /// An action; the second part is the clipboard's text, if it has any.
    Action(EditorAction, Option<Seq<u8>>),
    /// The pointer button goes down over the cell `(line, column)`.
    Press(nat, nat),
    /// The pointer moves to the cell `(line, column)`.
    Drag(nat, nat),
    /// The pointer button goes up.
    Release,
}

impl EditorState {
    /// The state to which `action` leads while the clipboard holds `clipboard`.
    pub open spec fn apply(self, action: EditorAction, clipboard: Option<Seq<u8>>) -> Self {
        match action {
            EditorAction::TypeCharacter(c) => self.insert(encode_scalar(c as u32)),
            EditorAction::Newline => self.newline(),
            EditorAction::Backspace => self.backspace(),
            EditorAction::Delete => self.delete(),
            EditorAction::DeleteToBeginningOfLine => self.delete_to_beginning_of_line(),
            EditorAction::DeleteToEndOfLine => self.delete_to_end_of_line(),
            EditorAction::Move(motion) => self.move_to(motion),
            EditorAction::Select(motion) => self.select_to(motion),
            EditorAction::SelectAll => self.select_all(),
            EditorAction::Copy => self,
            EditorAction::Cut => self.cut(),
            EditorAction::Paste => match clipboard {
                Some(text) => self.insert(text),
                None => self,
            },
        }
    }

    /// Whether `action` asks for a redraw: always after typing, deleting and
    /// selecting everything; after a motion that had somewhere to go; after a
    /// cut that had a selection and a paste that had text; never after a copy.
    pub open spec fn redraws(self, action: EditorAction, clipboard: Option<Seq<u8>>) -> bool {
        match action {
            EditorAction::Move(motion) | EditorAction::Select(motion) => applies(
                self.text,
                self.cursor,
                motion,
            ),
            EditorAction::Copy => false,
            EditorAction::Cut => self.has_selection(),
            EditorAction::Paste => clipboard is Some,
            _ => true,
        }
    }

    /// Whether `action` hands text to the clipboard: a copy or a cut of an
    /// active selection does, and the text is the selected one.
    pub open spec fn fills_clipboard(self, action: EditorAction) -> bool {
        (action == EditorAction::Copy || action == EditorAction::Cut) && self.has_selection()
    }

    /// The state to which `event` leads.
    pub open spec fn after(self, event: Event) -> Self {
        match event {
            Event::Action(action, clipboard) => self.apply(action, clipboard),
            Event::Press(line, column) => self.press(hit_offset(self.text, line, column)),
            Event::Drag(line, column) => self.drag_to(hit_offset(self.text, line, column)),
            Event::Release => self.release(),
        }
    }

    /// The state to which a run of events leads, one after another.
    pub open spec fn after_all(self, events: Seq<Event>) -> Self
        decreases events.len(),
    {
        if events.len() == 0 {
            self
        } else {
            self.after_all(events.drop_last()).after(events.last())
        }
    }
}

/// An event is sound when the clipboard text that comes with it, if any, is
/// valid UTF-8.
pub open spec fn event_wf(event: Event) -> bool {
    match event {
        Event::Action(_, Some(text)) => valid_utf8(text),
        _ => true,
    }
}

/// Every event leaves a sound state sound: the text stays valid UTF-8, and
/// the cursor and the ends of the selection stay on character boundaries
/// within it.
pub proof fn lemma_event_keeps_wf(s: EditorState, event: Event)
    requires
        s.wf(),
        event_wf(event),
    ensures
        s.after(event).wf(),
{
    match event {
        Event::Action(action, clipboard) => {
            s.lemma_delete_wf();
            match action {
                EditorAction::TypeCharacter(c) => {
                    lemma_char_encoding_valid(c);
                    s.lemma_insert_wf(encode_scalar(c as u32));
                },
                EditorAction::Newline => {
                    lemma_char_encoding_valid('\n');
                    assert(leading_byte_width_1(10u32) == 10u8) by (bit_vector);
                    assert(encode_scalar('\n' as u32) =~= seq![crate::utf8::NEWLINE]);
                    s.lemma_insert_wf(seq![crate::utf8::NEWLINE]);
                },
                EditorAction::Move(motion) => {
                    s.lemma_motion_wf(motion);
                },
                EditorAction::Select(motion) => {
                    s.lemma_motion_wf(motion);
                },
                EditorAction::SelectAll => {
                    s.lemma_motion_wf(Motion::Left);
                },
                EditorAction::Paste => {
                    match clipboard {
                        Some(text) => {
                            s.lemma_insert_wf(text);
                        },
                        None => {},
                    }
                },
                _ => {},
            }
        },
        Event::Press(line, column) => {
            lemma_hit_offset(s.text, line, column);
            s.lemma_pointer_wf(hit_offset(s.text, line, column));
        },
        Event::Drag(line, column) => {
            lemma_hit_offset(s.text, line, column);
            s.lemma_pointer_wf(hit_offset(s.text, line, column));
        },
        Event::Release => {
            s.lemma_pointer_wf(s.cursor);
        },
    }
}

/// Whatever happens to a sound editor, in whatever order, the cursor and the
/// ends of the selection stay on character boundaries within the text.
pub proof fn lemma_events_keep_wf(s: EditorState, events: Seq<Event>)
    requires
        s.wf(),
        forall|i: int| 0 <= i < events.len() ==> event_wf(#[trigger] events[i]),
    ensures
        s.after_all(events).wf(),
        is_char_boundary(s.after_all(events).text, s.after_all(events).cursor),
        0 <= s.after_all(events).selection_start() <= s.after_all(events).selection_end()
            <= s.after_all(events).text.len(),
        is_char_boundary(s.after_all(events).text, s.after_all(events).selection_start()),
        is_char_boundary(s.after_all(events).text, s.after_all(events).selection_end()),
    decreases events.len(),
{
    if events.len() > 0 {
        lemma_events_keep_wf(s, events.drop_last());
        lemma_event_keeps_wf(s.after_all(events.drop_last()), events.last());
    }
    s.after_all(events).lemma_selection_bounds();
}

/// The encoding of one character is valid UTF-8.
pub proof fn lemma_char_encoding_valid(c: char)
    ensures
        valid_utf8(encode_scalar(c as u32)),
        encode_utf8(seq![c]) == encode_scalar(c as u32),
{
    assert(seq![c].drop_first() =~= Seq::<char>::empty());
    reveal_with_fuel(encode_utf8, 2);
    assert(encode_utf8(seq![c]) =~= encode_scalar(c as u32));
    encode_utf8_valid_utf8(seq![c]);
}

/// The clipboard's text as bytes, where it has any.
pub open spec fn clipboard_bytes(clipboard: Option<&str>) -> Option<Seq<u8>> {
    match clipboard {
        Some(text) => Some(text.spec_bytes()),
        None => None,
    }
}

impl TextEditor {
    /// Performs `action`. `clipboard` is the text that the clipboard holds,
    /// if it holds any; only a paste reads it. The outcome says whether to
    /// redraw, and carries the text that a copy or a cut puts on the clipboard.
    pub fn handle_action(&mut self, action: EditorAction, clipboard: Option<&str>) -> (outcome:
        Outcome)
        requires
            old(self).wf(),
        ensures
            final(self).wf(),
            final(self)@ == old(self)@.apply(action, clipboard_bytes(clipboard)),
            outcome.redraw == old(self)@.redraws(action, clipboard_bytes(clipboard)),
            match outcome.clipboard {
                Some(text) => old(self)@.fills_clipboard(action) && encode_utf8(text@) == old(
                    self,
                )@.selected_text(),
                None => !old(self)@.fills_clipboard(action),
            },
    {
        match action {
            EditorAction::TypeCharacter(c) => {
                self.insert_char(c);
                Outcome { redraw: true, clipboard: None }
            },
            EditorAction::Newline => Outcome { redraw: self.handle_newline(), clipboard: None },
            EditorAction::Backspace => Outcome {
                redraw: self.handle_backspace(),
                clipboard: None,
            },
            EditorAction::Delete => Outcome { redraw: self.handle_delete(), clipboard: None },
            EditorAction::DeleteToBeginningOfLine => Outcome {
                redraw: self.delete_to_beginning_of_line(),
                clipboard: None,
            },
            EditorAction::DeleteToEndOfLine => Outcome {
                redraw: self.delete_to_end_of_line(),
                clipboard: None,
            },
            EditorAction::Move(motion) => Outcome {
                redraw: self.move_cursor(motion),
                clipboard: None,
            },
            EditorAction::Select(motion) => Outcome {
                redraw: self.extend_selection(motion),
                clipboard: None,
            },
            EditorAction::SelectAll => Outcome { redraw: self.select_all(), clipboard: None },
            EditorAction::Copy => Outcome { redraw: false, clipboard: self.copy() },
            EditorAction::Cut => {
                let clip = self.cut();
                Outcome { redraw: clip.is_some(), clipboard: clip }
            },
            EditorAction::Paste => Outcome { redraw: self.paste(clipboard), clipboard: None },
        }
    }
}

} // verus!
