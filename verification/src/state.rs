//! The state of an editing surface as a mathematical value, and every editing
//! rule as a function from state to state.

use crate::lines::{lemma_line_bounds_are_boundaries, lemma_line_end, lemma_line_start, line_end, line_start};
use crate::motion::{lemma_target_is_boundary, target, Motion};
use crate::utf8::{
    floor_boundary, lemma_boundary_concat, lemma_boundary_range, lemma_floor_boundary, lemma_next_boundary,
    lemma_split_valid, next_boundary, prev_boundary, NEWLINE,
};
use vstd::prelude::*;
use vstd::utf8::*;

verus! {

/// Whether a pointer button is held down to extend a selection.
#[derive(Clone, Copy, Debug, PartialEq, Eq, Structural)]
pub enum DragState {
    /// No button is held.
    Idle,
    /// A button is held; pointer moves carry the cursor along.
    Dragging,
}

/// Text, cursor and selection anchor of an editing surface. Offsets count
/// bytes of the text.
pub struct EditorState {
    /// The bytes of the text.
    pub text: Seq<u8>,
    /// The offset of the cursor.
    pub cursor: int,
    /// The fixed end of the selection, where one was begun.
    pub anchor: Option<int>,
    /// Whether a drag is under way.
    pub drag: DragState,
}

impl EditorState {
    /// The state is sound: the text is valid UTF-8, and the cursor and the
    /// anchor stand on character boundaries of it.
    pub open spec fn wf(self) -> bool {
        &&& valid_utf8(self.text)
        &&& is_char_boundary(self.text, self.cursor)
        &&& match self.anchor {
            Some(a) => is_char_boundary(self.text, a),
            None => true,
        }
    }

    /// The selection with its ends in order, where an anchor is set.
    pub open spec fn selection_range(self) -> Option<(int, int)> {
        match self.anchor {
            Some(a) => Some(
                if a < self.cursor {
                    (a, self.cursor)
                } else {
                    (self.cursor, a)
                },
            ),
            None => None,
        }
    }

    /// A selection is active when an anchor is set away from the cursor.
    pub open spec fn has_selection(self) -> bool {
        match self.anchor {
            Some(a) => a != self.cursor,
            None => false,
        }
    }

    /// First offset of the selection; the cursor where no anchor is set.
    pub open spec fn selection_start(self) -> int {
        match self.anchor {
            Some(a) => if a < self.cursor {
                a
            } else {
                self.cursor
            },
            None => self.cursor,
        }
    }

    /// Offset just past the selection; the cursor where no anchor is set.
    pub open spec fn selection_end(self) -> int {
        match self.anchor {
            Some(a) => if a < self.cursor {
                self.cursor
            } else {
                a
            },
            None => self.cursor,
        }
    }

    /// The selected bytes.
    pub open spec fn selected_text(self) -> Seq<u8> {
        self.text.subrange(self.selection_start(), self.selection_end())
    }

    /// The state after the whole text is replaced by `bytes`: the cursor keeps
    /// its offset as far as the new text reaches, moved back to a character
    /// boundary where it would fall inside a character, and no anchor is set.
    pub open spec fn with_text(self, bytes: Seq<u8>) -> Self {
        EditorState {
            text: bytes,
            cursor: floor_boundary(
                bytes,
                if self.cursor < bytes.len() {
                    self.cursor
                } else {
                    bytes.len() as int
                },
            ),
            anchor: None,
            drag: self.drag,
        }
    }

    /// The state without its anchor.
    pub open spec fn clear_selection(self) -> Self {
        EditorState { anchor: None, ..self }
    }

    /// The state after the bytes from `start` to `end` are removed: the cursor
    /// stands where they were, and no anchor is set.
    pub open spec fn remove(self, start: int, end: int) -> Self {
        EditorState {
            text: self.text.subrange(0, start) + self.text.subrange(end, self.text.len() as int),
            cursor: start,
            anchor: None,
            drag: self.drag,
        }
    }

    /// The state after `bytes` are put in at the cursor: the cursor stands
    /// behind them, and no anchor is set.
    pub open spec fn splice(self, bytes: Seq<u8>) -> Self {
        EditorState {
            text: self.text.subrange(0, self.cursor) + bytes + self.text.subrange(
                self.cursor,
                self.text.len() as int,
            ),
            cursor: self.cursor + bytes.len(),
            anchor: None,
            drag: self.drag,
        }
    }

    /// The rule that every edit of a selection begins with: an active
    /// selection is removed and the cursor takes its place; in any case the
    /// anchor is dropped.
    pub open spec fn replace_selection(self) -> Self {
        if self.has_selection() {
            self.remove(self.selection_start(), self.selection_end())
        } else {
            self.clear_selection()
        }
    }

    /// Typing or pasting `bytes`: the selection rule, then the bytes at the cursor.
    pub open spec fn insert(self, bytes: Seq<u8>) -> Self {
        self.replace_selection().splice(bytes)
    }

    /// Breaking the line: the selection rule, then one newline at the cursor.
    pub open spec fn newline(self) -> Self {
        self.insert(seq![NEWLINE])
    }

    /// Deleting backwards: an active selection goes; else the character that
    /// ends at the cursor goes, if there is one.
    pub open spec fn backspace(self) -> Self {
        if self.has_selection() || self.cursor <= 0 {
            self.replace_selection()
        } else {
            self.remove(prev_boundary(self.text, self.cursor), self.cursor)
        }
    }

    /// Deleting forwards: an active selection goes; else the character that
    /// begins at the cursor goes, if there is one.
    pub open spec fn delete(self) -> Self {
        if self.has_selection() || self.cursor >= self.text.len() {
            self.replace_selection()
        } else {
            self.remove(self.cursor, next_boundary(self.text, self.cursor))
        }
    }

    /// Deleting from the start of the line up to the cursor. The newline
    /// before the line stays.
    pub open spec fn delete_to_beginning_of_line(self) -> Self {
        self.remove(line_start(self.text, self.cursor), self.cursor)
    }

    /// Deleting from the cursor up to the end of the line. The newline after
    /// the line stays.
    pub open spec fn delete_to_end_of_line(self) -> Self {
        self.remove(self.cursor, line_end(self.text, self.cursor))
    }

    /// Moving the cursor: it goes where `motion` leads, and the anchor is dropped.
    pub open spec fn move_to(self, motion: Motion) -> Self {
        EditorState { cursor: target(self.text, self.cursor, motion), anchor: None, ..self }
    }

    /// Extending the selection: the cursor goes where `motion` leads, and the
    /// anchor stays, or is set to where the cursor was.
    pub open spec fn select_to(self, motion: Motion) -> Self {
        EditorState {
            cursor: target(self.text, self.cursor, motion),
            anchor: Some(
                match self.anchor {
                    Some(a) => a,
                    None => self.cursor,
                },
            ),
            ..self
        }
    }

    /// Selecting the whole text: anchor at the start, cursor at the end.
    pub open spec fn select_all(self) -> Self {
        EditorState { cursor: self.text.len() as int, anchor: Some(0), ..self }
    }

    /// Cutting: an active selection is removed; without one nothing changes.
    pub open spec fn cut(self) -> Self {
        if self.has_selection() {
            self.replace_selection()
        } else {
            self
        }
    }

    /// Pressing the pointer button over offset `at`: cursor and anchor go
    /// there, and a drag begins.
    pub open spec fn press(self, at: int) -> Self {
        EditorState { cursor: at, anchor: Some(at), drag: DragState::Dragging, ..self }
    }

    /// Moving the pointer to offset `at`: during a drag the cursor follows.
    pub open spec fn drag_to(self, at: int) -> Self {
        if self.drag == DragState::Dragging {
            EditorState { cursor: at, ..self }
        } else {
            self
        }
    }

    /// Releasing the pointer button: the drag ends, and an anchor that the
    /// cursor never left is dropped.
    pub open spec fn release(self) -> Self {
        EditorState {
            anchor: if self.anchor == Some(self.cursor) {
                None
            } else {
                self.anchor
            },
            drag: DragState::Idle,
            ..self
        }
    }

    /// Removing the bytes between two boundaries keeps the state sound.
    pub proof fn lemma_remove_wf(self, start: int, end: int)
        requires
            self.wf(),
            start <= end,
            is_char_boundary(self.text, start),
            is_char_boundary(self.text, end),
        ensures
            self.remove(start, end).wf(),
            self.remove(start, end).text.len() == self.text.len() - (end - start),
    {
        lemma_split_valid(self.text, start);
        lemma_split_valid(self.text, end);
        let head = self.text.subrange(0, start);
        let tail = self.text.subrange(end, self.text.len() as int);
        lemma_boundary_range(head, 0);
        lemma_boundary_concat(head, tail, start);
    }

    /// Putting valid UTF-8 in at the cursor keeps the state sound.
    pub proof fn lemma_splice_wf(self, bytes: Seq<u8>)
        requires
            self.wf(),
            valid_utf8(bytes),
        ensures
            self.splice(bytes).wf(),
            self.splice(bytes).text.len() == self.text.len() + bytes.len(),
    {
        lemma_split_valid(self.text, self.cursor);
        let head = self.text.subrange(0, self.cursor);
        let tail = self.text.subrange(self.cursor, self.text.len() as int);
        lemma_boundary_concat(head, bytes, 0);
        lemma_boundary_range(head + bytes, 0);
        lemma_boundary_concat(head + bytes, tail, self.cursor + bytes.len());
    }

    /// The ends of the selection are boundaries, in order.
    pub proof fn lemma_selection_bounds(self)
        requires
            self.wf(),
        ensures
            0 <= self.selection_start() <= self.selection_end() <= self.text.len(),
            is_char_boundary(self.text, self.selection_start()),
            is_char_boundary(self.text, self.selection_end()),
            self.has_selection() ==> self.selection_start() < self.selection_end(),
            self.selection_range() == if self.anchor is Some {
                Some((self.selection_start(), self.selection_end()))
            } else {
                None
            },
    {
        lemma_boundary_range(self.text, self.selection_start());
        lemma_boundary_range(self.text, self.selection_end());
    }

    /// The selection rule keeps the state sound.
    pub proof fn lemma_replace_selection_wf(self)
        requires
            self.wf(),
        ensures
            self.replace_selection().wf(),
            self.replace_selection().anchor is None,
            self.replace_selection().text.len() <= self.text.len(),
    {
        self.lemma_selection_bounds();
        if self.has_selection() {
            self.lemma_remove_wf(self.selection_start(), self.selection_end());
        }
    }

    /// Typing or pasting valid UTF-8 keeps the state sound.
    pub proof fn lemma_insert_wf(self, bytes: Seq<u8>)
        requires
            self.wf(),
            valid_utf8(bytes),
        ensures
            self.insert(bytes).wf(),
    {
        self.lemma_replace_selection_wf();
        self.replace_selection().lemma_splice_wf(bytes);
    }

    /// Every deletion keeps the state sound.
    pub proof fn lemma_delete_wf(self)
        requires
            self.wf(),
        ensures
            self.backspace().wf(),
            self.delete().wf(),
            self.delete_to_beginning_of_line().wf(),
            self.delete_to_end_of_line().wf(),
            self.cut().wf(),
    {
        lemma_boundary_range(self.text, self.cursor);
        self.lemma_replace_selection_wf();
        if self.cursor > 0 {
            lemma_floor_boundary(self.text, self.cursor - 1);
            self.lemma_remove_wf(prev_boundary(self.text, self.cursor), self.cursor);
        }
        if self.cursor < self.text.len() {
            lemma_next_boundary(self.text, self.cursor);
            self.lemma_remove_wf(self.cursor, next_boundary(self.text, self.cursor));
        }
        lemma_line_start(self.text, self.cursor);
        lemma_line_end(self.text, self.cursor);
        lemma_line_bounds_are_boundaries(self.text, self.cursor);
        self.lemma_remove_wf(line_start(self.text, self.cursor), self.cursor);
        self.lemma_remove_wf(self.cursor, line_end(self.text, self.cursor));
    }

    /// Moving the cursor and extending the selection keep the state sound.
    pub proof fn lemma_motion_wf(self, motion: Motion)
        requires
            self.wf(),
        ensures
            self.move_to(motion).wf(),
            self.select_to(motion).wf(),
            self.select_all().wf(),
    {
        lemma_target_is_boundary(self.text, self.cursor, motion);
        lemma_boundary_range(self.text, 0);
    }

    /// Pointer presses and moves over boundaries, and releases, keep the state sound.
    pub proof fn lemma_pointer_wf(self, at: int)
        requires
            self.wf(),
            is_char_boundary(self.text, at),
        ensures
            self.press(at).wf(),
            self.drag_to(at).wf(),
            self.release().wf(),
    {
    }
}

} // verus!
