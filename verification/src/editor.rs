//! The editor: a text buffer with a cursor and an optional selection, and the
//! operations that keep the three consistent.

use crate::buffer::TextBuffer;
use crate::hit::{cell_at, cell_column, cell_line, hit_offset, offset_at_cell};
use crate::lines::{
    find_line_end, find_line_start, lemma_line_bounds_are_boundaries, lemma_line_end,
    lemma_line_start, line_end, line_start,
};
use crate::motion::{applies, lemma_target_is_boundary, target, Motion};
use crate::state::{DragState, EditorState};
use crate::words::{classify_text, word_left, word_right};
use crate::utf8::{
    column_offset, floor_boundary, lemma_boundary_range, lemma_floor_boundary,
    lemma_next_boundary, lemma_split_valid, next_boundary, prev_boundary, NEWLINE,
};
use vstd::prelude::*;
use vstd::string::*;
use vstd::utf8::*;

verus! {

/// A text with a cursor and an optional selection. Its view is an
/// [`EditorState`]; every operation says which state it leads to.
pub struct TextEditor {
    buffer: TextBuffer,
    cursor: usize,
    anchor: Option<usize>,
    drag: DragState,
}

impl View for TextEditor {
    type V = EditorState;

    closed spec fn view(&self) -> EditorState {
        EditorState {
            text: self.buffer@,
            cursor: self.cursor as int,
            anchor: match self.anchor {
                Some(a) => Some(a as int),
                None => None,
            },
            drag: self.drag,
        }
    }
}

impl TextEditor {
    /// The editor is sound when its state is: cursor and anchor stand on
    /// character boundaries of the text.
    pub open spec fn wf(&self) -> bool {
        self@.wf()
    }

    /// The text of an editor is valid UTF-8, and in a sound editor the cursor
    /// and the anchor lie within it.
    pub proof fn lemma_bounds(&self)
        ensures
            valid_utf8(self@.text),
            self.wf() ==> 0 <= self@.cursor <= self@.text.len(),
            self.wf() ==> 0 <= self@.selection_start() <= self@.selection_end()
                <= self@.text.len(),
    {
        self.buffer.lemma_valid();
        if self.wf() {
            lemma_boundary_range(self@.text, self@.cursor);
            self@.lemma_selection_bounds();
        }
    }

    /// Checks that the editor is sound.
    pub fn is_sound(&self) -> (b: bool)
        ensures
            b == self.wf(),
    {
        proof {
            self.buffer.lemma_valid();
        }
        self.buffer.is_boundary(self.cursor) && match self.anchor {
            Some(anchor) => self.buffer.is_boundary(anchor),
            None => true,
        }
    }

    /// An editor with no text, the cursor at offset 0 and no selection.
    pub fn new() -> (e: Self)
        ensures
            e.wf(),
            e@ == (EditorState {
                text: Seq::<u8>::empty(),
                cursor: 0,
                anchor: None,
                drag: DragState::Idle,
            }),
    {
        let e = TextEditor {
            buffer: TextBuffer::new(),
            cursor: 0,
            anchor: None,
            drag: DragState::Idle,
        };
        proof {
            e.buffer.lemma_valid();
            lemma_boundary_range(e@.text, 0);
        }
        e
    }

    /// An editor that holds `text`, with the cursor at offset 0 and no selection.
    pub fn from_text(text: &str) -> (e: Self)
        ensures
            e.wf(),
            e@ == (EditorState {
                text: text.spec_bytes(),
                cursor: 0,
                anchor: None,
                drag: DragState::Idle,
            }),
    {
        let e = TextEditor {
            buffer: TextBuffer::from_text(text),
            cursor: 0,
            anchor: None,
            drag: DragState::Idle,
        };
        proof {
            e.buffer.lemma_valid();
            lemma_boundary_range(e@.text, 0);
        }
        e
    }

    /// Replaces the whole text, as after a reload. The cursor keeps its
    /// offset as far as the new text reaches, moved back to a character
    /// boundary where it would fall inside a character; the anchor is dropped.
    pub fn set_content(&mut self, text: &str)
        requires
            old(self).wf(),
        ensures
            final(self).wf(),
            final(self)@ == old(self)@.with_text(text.spec_bytes()),
    {
        self.buffer = TextBuffer::from_text(text);
        let n: usize = self.buffer.len();
        let aim: usize = if self.cursor < n {
            self.cursor
        } else {
            n
        };
        self.cursor = self.boundary_floor(aim);
        self.anchor = None;
        proof {
            self.buffer.lemma_valid();
        }
    }

    /// The buffer that holds the text.
    pub fn buffer(&self) -> (b: &TextBuffer)
        ensures
            b@ == self@.text,
    {
        &self.buffer
    }

    /// The text.
    pub fn content(&self) -> (s: &str)
        ensures
            s.spec_bytes() == self@.text,
    {
        self.buffer.as_str()
    }

    /// Length of the text in bytes.
    pub fn len(&self) -> (n: usize)
        ensures
            n == self@.text.len(),
    {
        self.buffer.len()
    }

    /// Whether the text is empty.
    pub fn is_empty(&self) -> (e: bool)
        ensures
            e == (self@.text.len() == 0),
    {
        self.buffer.is_empty()
    }

    /// Offset of the cursor.
    pub fn cursor_offset(&self) -> (c: usize)
        ensures
            c == self@.cursor,
    {
        self.cursor
    }

    /// The fixed end of the selection, where one was begun.
    pub fn selection_anchor(&self) -> (a: Option<usize>)
        ensures
            match a {
                Some(offset) => self@.anchor == Some(offset as int),
                None => self@.anchor is None,
            },
    {
        self.anchor
    }

    /// Whether a drag is under way.
    pub fn drag_state(&self) -> (d: DragState)
        ensures
            d == self@.drag,
    {
        self.drag
    }

    /// The selection with its ends in order, where an anchor is set.
    pub fn selection_range(&self) -> (r: Option<(usize, usize)>)
        ensures
            match r {
                Some((start, end)) => self@.selection_range() == Some((start as int, end as int)),
                None => self@.selection_range() is None,
            },
    {
        match self.anchor {
            Some(anchor) => {
                if anchor < self.cursor {
                    Some((anchor, self.cursor))
                } else {
                    Some((self.cursor, anchor))
                }
            },
            None => None,
        }
    }

    /// Whether a selection is active: an anchor is set away from the cursor.
    pub fn has_selection(&self) -> (b: bool)
        ensures
            b == self@.has_selection(),
    {
        match self.anchor {
            Some(anchor) => anchor != self.cursor,
            None => false,
        }
    }

    /// Drops the anchor.
    pub fn clear_selection(&mut self)
        requires
            old(self).wf(),
        ensures
            final(self).wf(),
            final(self)@ == old(self)@.clear_selection(),
    {
        self.anchor = None;
    }

    /// Removes the bytes between two boundaries and puts the cursor in their place.
    fn remove(&mut self, start: usize, end: usize)
        requires
            old(self).wf(),
            start <= end,
            is_char_boundary(old(self)@.text, start as int),
            is_char_boundary(old(self)@.text, end as int),
        ensures
            final(self).wf(),
            final(self)@ == old(self)@.remove(start as int, end as int),
    {
        proof {
            self@.lemma_remove_wf(start as int, end as int);
        }
        self.buffer.delete_range(start, end);
        self.cursor = start;
        self.anchor = None;
    }

    /// Puts `text` in at the cursor and moves the cursor behind it.
    fn splice(&mut self, text: &str)
        requires
            old(self).wf(),
        ensures
            final(self).wf(),
            final(self)@ == old(self)@.splice(text.spec_bytes()),
    {
        proof {
            self.lemma_bounds();
            encode_utf8_valid_utf8(text@);
            self@.lemma_splice_wf(text.spec_bytes());
        }
        let added: usize = text.len();
        self.buffer.insert(self.cursor, text);
        let total: usize = self.buffer.len();
        assert(self.cursor + added <= total);
        self.cursor = self.cursor + added;
        self.anchor = None;
    }

    /// Applies the selection rule: an active selection is removed and the
    /// cursor takes its place; in any case the anchor is dropped. Tells
    /// whether a selection was active.
    pub fn replace_selection(&mut self) -> (had: bool)
        requires
            old(self).wf(),
        ensures
            final(self).wf(),
            final(self)@ == old(self)@.replace_selection(),
            had == old(self)@.has_selection(),
    {
        proof {
            self@.lemma_selection_bounds();
        }
        match self.selection_range() {
            Some((start, end)) => {
                assert(start == self@.selection_start() && end == self@.selection_end());
                if start < end {
                    self.remove(start, end);
                    true
                } else {
                    self.anchor = None;
                    false
                }
            },
            None => {
                false
            },
        }
    }

    /// Types or pastes `text`: the selection rule, then the text at the
    /// cursor, which ends up behind it.
    pub fn insert_text(&mut self, text: &str)
        requires
            old(self).wf(),
        ensures
            final(self).wf(),
            final(self)@ == old(self)@.insert(text.spec_bytes()),
    {
        self.replace_selection();
        self.splice(text);
    }

    /// Types the character `c`: the selection rule, then the character at the
    /// cursor, which ends up behind it.
    pub fn insert_char(&mut self, c: char)
        requires
            old(self).wf(),
        ensures
            final(self).wf(),
            final(self)@ == old(self)@.insert(encode_scalar(c as u32)),
    {
        let mut text = TextBuffer::new();
        text.push_char(c);
        assert(text@ =~= encode_scalar(c as u32));
        self.insert_text(text.as_str());
    }

    /// Breaks the line at the cursor: the selection rule, then one newline.
    /// Always asks for a redraw.
    pub fn handle_newline(&mut self) -> (redraw: bool)
        requires
            old(self).wf(),
        ensures
            final(self).wf(),
            final(self)@ == old(self)@.newline(),
            redraw,
    {
        self.insert_char('\n');
        proof {
            assert(leading_byte_width_1(10u32) == 10u8) by (bit_vector);
            assert(encode_scalar('\n' as u32) =~= seq![NEWLINE]);
        }
        true
    }

    /// Deletes backwards: an active selection, or else the character before
    /// the cursor. Always asks for a redraw.
    pub fn handle_backspace(&mut self) -> (redraw: bool)
        requires
            old(self).wf(),
        ensures
            final(self).wf(),
            final(self)@ == old(self)@.backspace(),
            redraw,
    {
        if self.has_selection() || self.cursor == 0 {
            self.replace_selection();
        } else {
            let start: usize = self.boundary_before(self.cursor);
            self.remove(start, self.cursor);
        }
        true
    }

    /// Deletes forwards: an active selection, or else the character after the
    /// cursor. Always asks for a redraw.
    pub fn handle_delete(&mut self) -> (redraw: bool)
        requires
            old(self).wf(),
        ensures
            final(self).wf(),
            final(self)@ == old(self)@.delete(),
            redraw,
    {
        if self.has_selection() || self.cursor >= self.buffer.len() {
            self.replace_selection();
        } else {
            let end: usize = self.boundary_after(self.cursor);
            self.remove(self.cursor, end);
        }
        true
    }

    /// Deletes from the start of the line up to the cursor and drops the
    /// anchor; the newline before the line stays. Always asks for a redraw.
    pub fn delete_to_beginning_of_line(&mut self) -> (redraw: bool)
        requires
            old(self).wf(),
        ensures
            final(self).wf(),
            final(self)@ == old(self)@.delete_to_beginning_of_line(),
            redraw,
    {
        proof {
            self.lemma_bounds();
            lemma_line_start(self@.text, self@.cursor);
            lemma_line_bounds_are_boundaries(self@.text, self@.cursor);
        }
        let start: usize = find_line_start(self.buffer.as_bytes(), self.cursor);
        self.remove(start, self.cursor);
        true
    }

    /// Deletes from the cursor up to the end of the line and drops the
    /// anchor; the newline after the line stays. Always asks for a redraw.
    pub fn delete_to_end_of_line(&mut self) -> (redraw: bool)
        requires
            old(self).wf(),
        ensures
            final(self).wf(),
            final(self)@ == old(self)@.delete_to_end_of_line(),
            redraw,
    {
        proof {
            self.lemma_bounds();
            lemma_line_end(self@.text, self@.cursor);
            lemma_line_bounds_are_boundaries(self@.text, self@.cursor);
        }
        let end: usize = find_line_end(self.buffer.as_bytes(), self.cursor);
        self.remove(self.cursor, end);
        true
    }

    /// The boundary at `i`, or else the nearest one before it.
    fn boundary_floor(&self, i: usize) -> (b: usize)
        requires
            i <= self@.text.len(),
        ensures
            b == floor_boundary(self@.text, i as int),
            b <= i,
            is_char_boundary(self@.text, b as int),
    {
        proof {
            self.lemma_bounds();
            lemma_floor_boundary(self@.text, i as int);
        }
        let mut b: usize = i;
        while b > 0 && !self.buffer.is_boundary(b)
            invariant
                b <= i,
                floor_boundary(self@.text, b as int) == floor_boundary(self@.text, i as int),
            decreases b,
        {
            b -= 1;
        }
        b
    }

    /// The nearest boundary before `i`.
    fn boundary_before(&self, i: usize) -> (b: usize)
        requires
            0 < i <= self@.text.len(),
        ensures
            b == prev_boundary(self@.text, i as int),
            b < i,
            is_char_boundary(self@.text, b as int),
    {
        self.boundary_floor(i - 1)
    }

    /// The nearest boundary after `i`.
    fn boundary_after(&self, i: usize) -> (b: usize)
        requires
            i < self@.text.len(),
        ensures
            b == next_boundary(self@.text, i as int),
            i < b <= self@.text.len(),
            is_char_boundary(self@.text, b as int),
    {
        proof {
            self.lemma_bounds();
            lemma_next_boundary(self@.text, i as int);
            lemma_boundary_range(self@.text, 0);
        }
        let n: usize = self.buffer.len();
        let mut b: usize = i + 1;
        while b < n && !self.buffer.is_boundary(b)
            invariant
                i < b <= n == self@.text.len(),
                is_char_boundary(self@.text, n as int),
                next_boundary(self@.text, b - 1) == next_boundary(self@.text, i as int),
            decreases n - b,
        {
            b += 1;
        }
        b
    }
    /// Whether `motion` has somewhere to go from the cursor.
    pub fn can_move(&self, motion: Motion) -> (b: bool)
        requires
            self.wf(),
        ensures
            b == applies(self@.text, self@.cursor, motion),
    {
        proof {
            self.lemma_bounds();
        }
        match motion {
            Motion::Left | Motion::WordLeft => self.cursor > 0,
            Motion::Right | Motion::WordRight => self.cursor < self.buffer.len(),
            Motion::Up => find_line_start(self.buffer.as_bytes(), self.cursor) > 0,
            Motion::Down => find_line_end(self.buffer.as_bytes(), self.cursor)
                < self.buffer.len(),
            Motion::LineStart | Motion::LineEnd => true,
        }
    }

    /// The offset one line above the cursor.
    fn offset_above(&self) -> (t: usize)
        requires
            self.wf(),
        ensures
            t == crate::motion::up_target(self@.text, self@.cursor),
    {
        proof {
            self.lemma_bounds();
            lemma_line_start(self@.text, self@.cursor);
        }
        let bytes = self.buffer.as_bytes();
        let start: usize = find_line_start(bytes, self.cursor);
        if start == 0 {
            return self.cursor;
        }
        let above_end: usize = start - 1;
        let above_start: usize = find_line_start(bytes, above_end);
        proof {
            lemma_line_start(self@.text, above_end as int);
        }
        let column: usize = self.cursor - start;
        let width: usize = above_end - above_start;
        let aim: usize = above_start + if column < width {
            column
        } else {
            width
        };
        self.boundary_floor(aim)
    }

    /// The offset one line below the cursor.
    fn offset_below(&self) -> (t: usize)
        requires
            self.wf(),
        ensures
            t == crate::motion::down_target(self@.text, self@.cursor),
    {
        proof {
            self.lemma_bounds();
            lemma_line_start(self@.text, self@.cursor);
            lemma_line_end(self@.text, self@.cursor);
        }
        let bytes = self.buffer.as_bytes();
        let end: usize = find_line_end(bytes, self.cursor);
        if end >= self.buffer.len() {
            return self.cursor;
        }
        let below_start: usize = end + 1;
        let below_end: usize = find_line_end(bytes, below_start);
        proof {
            lemma_line_end(self@.text, below_start as int);
        }
        let column: usize = self.cursor - find_line_start(bytes, self.cursor);
        let width: usize = below_end - below_start;
        let aim: usize = below_start + if column < width {
            column
        } else {
            width
        };
        self.boundary_floor(aim)
    }

    /// The offset one word to the left of the cursor.
    fn offset_word_left(&self) -> (t: usize)
        requires
            self.wf(),
        ensures
            t == crate::motion::word_left_target(self@.text, self@.cursor),
    {
        proof {
            self.lemma_bounds();
            lemma_split_valid(self@.text, self@.cursor);
        }
        let (before, _) = self.buffer.as_str().split_at(self.cursor);
        proof {
            assert(before.spec_bytes() =~= self@.text.subrange(0, self@.cursor));
            encode_utf8_decode_utf8(before@);
        }
        let classes = classify_text(before);
        let kept: usize = word_left(classes.as_slice());
        column_offset(before, kept as u64)
    }

    /// The offset one word to the right of the cursor.
    fn offset_word_right(&self) -> (t: usize)
        requires
            self.wf(),
        ensures
            t == crate::motion::word_right_target(self@.text, self@.cursor),
    {
        proof {
            self.lemma_bounds();
            lemma_split_valid(self@.text, self@.cursor);
        }
        let (_, after) = self.buffer.as_str().split_at(self.cursor);
        proof {
            assert(after.spec_bytes() =~= self@.text.subrange(
                self@.cursor,
                self@.text.len() as int,
            ));
            encode_utf8_decode_utf8(after@);
        }
        let classes = classify_text(after);
        let passed: usize = word_right(classes.as_slice());
        let within: usize = column_offset(after, passed as u64);
        let total: usize = self.buffer.len();
        assert(self.cursor + within <= total);
        self.cursor + within
    }

    /// The offset to which `motion` leads from the cursor: always a character
    /// boundary of the text.
    pub fn destination(&self, motion: Motion) -> (t: usize)
        requires
            self.wf(),
        ensures
            t == target(self@.text, self@.cursor, motion),
            is_char_boundary(self@.text, t as int),
    {
        proof {
            self.lemma_bounds();
            lemma_target_is_boundary(self@.text, self@.cursor, motion);
        }
        match motion {
            Motion::Left => {
                if self.cursor == 0 {
                    0
                } else {
                    self.boundary_before(self.cursor)
                }
            },
            Motion::Right => {
                if self.cursor >= self.buffer.len() {
                    self.cursor
                } else {
                    self.boundary_after(self.cursor)
                }
            },
            Motion::Up => self.offset_above(),
            Motion::Down => self.offset_below(),
            Motion::WordLeft => self.offset_word_left(),
            Motion::WordRight => self.offset_word_right(),
            Motion::LineStart => find_line_start(self.buffer.as_bytes(), self.cursor),
            Motion::LineEnd => find_line_end(self.buffer.as_bytes(), self.cursor),
        }
    }

    /// Moves the cursor by `motion` and drops the anchor. Asks for a redraw
    /// where the motion had somewhere to go.
    pub fn move_cursor(&mut self, motion: Motion) -> (redraw: bool)
        requires
            old(self).wf(),
        ensures
            final(self).wf(),
            final(self)@ == old(self)@.move_to(motion),
            redraw == applies(old(self)@.text, old(self)@.cursor, motion),
    {
        let redraw = self.can_move(motion);
        let to: usize = self.destination(motion);
        self.cursor = to;
        self.anchor = None;
        redraw
    }

    /// Moves the cursor by `motion` and keeps the anchor, or sets it to where
    /// the cursor was. Asks for a redraw where the motion had somewhere to go.
    pub fn extend_selection(&mut self, motion: Motion) -> (redraw: bool)
        requires
            old(self).wf(),
        ensures
            final(self).wf(),
            final(self)@ == old(self)@.select_to(motion),
            redraw == applies(old(self)@.text, old(self)@.cursor, motion),
    {
        let redraw = self.can_move(motion);
        let to: usize = self.destination(motion);
        if self.anchor.is_none() {
            self.anchor = Some(self.cursor);
        }
        self.cursor = to;
        redraw
    }

    /// Moves the cursor one character back; at the start of the text it
    /// stays. Drops the anchor.
    pub fn move_left(&mut self) -> (redraw: bool)
        requires
            old(self).wf(),
        ensures
            final(self).wf(),
            final(self)@ == old(self)@.move_to(Motion::Left),
            redraw == (old(self)@.cursor > 0),
    {
        self.move_cursor(Motion::Left)
    }

    /// Moves the cursor one character forward; at the end of the text it
    /// stays. Drops the anchor.
    pub fn move_right(&mut self) -> (redraw: bool)
        requires
            old(self).wf(),
        ensures
            final(self).wf(),
            final(self)@ == old(self)@.move_to(Motion::Right),
            redraw == (old(self)@.cursor < old(self)@.text.len()),
    {
        self.move_cursor(Motion::Right)
    }

    /// Moves the cursor to the line above, keeping its column as far as that
    /// line reaches; on the first line it stays. Drops the anchor.
    pub fn move_up(&mut self) -> (redraw: bool)
        requires
            old(self).wf(),
        ensures
            final(self).wf(),
            final(self)@ == old(self)@.move_to(Motion::Up),
            redraw == (line_start(old(self)@.text, old(self)@.cursor) > 0),
    {
        self.move_cursor(Motion::Up)
    }

    /// Moves the cursor to the line below, keeping its column as far as that
    /// line reaches; on the last line it stays. Drops the anchor.
    pub fn move_down(&mut self) -> (redraw: bool)
        requires
            old(self).wf(),
        ensures
            final(self).wf(),
            final(self)@ == old(self)@.move_to(Motion::Down),
            redraw == (line_end(old(self)@.text, old(self)@.cursor) < old(self)@.text.len()),
    {
        self.move_cursor(Motion::Down)
    }

    /// Moves the cursor back over whitespace and the word before it. Drops
    /// the anchor.
    pub fn move_word_left(&mut self) -> (redraw: bool)
        requires
            old(self).wf(),
        ensures
            final(self).wf(),
            final(self)@ == old(self)@.move_to(Motion::WordLeft),
            redraw == (old(self)@.cursor > 0),
    {
        self.move_cursor(Motion::WordLeft)
    }

    /// Moves the cursor forward over whitespace and the word after it. Drops
    /// the anchor.
    pub fn move_word_right(&mut self) -> (redraw: bool)
        requires
            old(self).wf(),
        ensures
            final(self).wf(),
            final(self)@ == old(self)@.move_to(Motion::WordRight),
            redraw == (old(self)@.cursor < old(self)@.text.len()),
    {
        self.move_cursor(Motion::WordRight)
    }

    /// Moves the cursor to the start of its line. Drops the anchor and always
    /// asks for a redraw.
    pub fn move_to_beginning_of_line(&mut self) -> (redraw: bool)
        requires
            old(self).wf(),
        ensures
            final(self).wf(),
            final(self)@ == old(self)@.move_to(Motion::LineStart),
            redraw,
    {
        self.move_cursor(Motion::LineStart)
    }

    /// Moves the cursor to the end of its line. Drops the anchor and always
    /// asks for a redraw.
    pub fn move_to_end_of_line(&mut self) -> (redraw: bool)
        requires
            old(self).wf(),
        ensures
            final(self).wf(),
            final(self)@ == old(self)@.move_to(Motion::LineEnd),
            redraw,
    {
        self.move_cursor(Motion::LineEnd)
    }

    /// Selects the whole text: anchor at the start, cursor at the end. Always
    /// asks for a redraw.
    pub fn select_all(&mut self) -> (redraw: bool)
        requires
            old(self).wf(),
        ensures
            final(self).wf(),
            final(self)@ == old(self)@.select_all(),
            redraw,
    {
        proof {
            self.lemma_bounds();
            lemma_boundary_range(self@.text, 0);
        }
        self.anchor = Some(0);
        self.cursor = self.buffer.len();
        true
    }

    /// The selected text for the clipboard, where a selection is active. The
    /// editor does not change.
    pub fn copy(&self) -> (clip: Option<String>)
        requires
            self.wf(),
        ensures
            match clip {
                Some(text) => self@.has_selection() && encode_utf8(text@)
                    == self@.selected_text(),
                None => !self@.has_selection(),
            },
    {
        proof {
            self@.lemma_selection_bounds();
        }
        match self.selection_range() {
            Some((start, end)) => {
                if start < end {
                    Some(self.buffer.slice(start, end))
                } else {
                    None
                }
            },
            None => None,
        }
    }

    /// Cuts the selection: where one is active, its text is handed out for
    /// the clipboard and removed, and a redraw is due; else nothing changes.
    pub fn cut(&mut self) -> (clip: Option<String>)
        requires
            old(self).wf(),
        ensures
            final(self).wf(),
            final(self)@ == old(self)@.cut(),
            match clip {
                Some(text) => old(self)@.has_selection() && encode_utf8(text@)
                    == old(self)@.selected_text(),
                None => !old(self)@.has_selection(),
            },
    {
        let clip = self.copy();
        if clip.is_some() {
            self.replace_selection();
        }
        clip
    }

    /// Pastes what the clipboard gave. With text, the selection rule applies,
    /// the text goes in at the cursor and a redraw is due; with nothing, the
    /// editor stays as it is.
    pub fn paste(&mut self, clip: Option<&str>) -> (redraw: bool)
        requires
            old(self).wf(),
        ensures
            final(self).wf(),
            match clip {
                Some(text) => final(self)@ == old(self)@.insert(text.spec_bytes()) && redraw,
                None => final(self)@ == old(self)@ && !redraw,
            },
    {
        match clip {
            Some(text) => {
                self.insert_text(text);
                true
            },
            None => false,
        }
    }

    /// The offset under the point `(x, y)`, in whole pixels, at the given
    /// font size: that of the cell under the point.
    pub fn position_from_mouse(&self, x: u32, y: u32, font_size: u32) -> (offset: usize)
        requires
            font_size > 0,
        ensures
            offset == hit_offset(
                self@.text,
                cell_line(y as int, font_size as int) as nat,
                cell_column(x as int, font_size as int) as nat,
            ),
            is_char_boundary(self@.text, offset as int),
            self@.text.len() == 0 ==> offset == 0,
    {
        let (line, column) = cell_at(x, y, font_size);
        self.position_from_cell(line, column)
    }

    /// The offset under the cell `(line, column)`: the line is held to the
    /// lines that the text has, the column to the characters of that line.
    pub fn position_from_cell(&self, line: u64, column: u64) -> (offset: usize)
        ensures
            offset == hit_offset(self@.text, line as nat, column as nat),
            is_char_boundary(self@.text, offset as int),
            self@.text.len() == 0 ==> offset == 0,
    {
        proof {
            self.lemma_bounds();
            crate::hit::lemma_hit_offset(self@.text, line as nat, column as nat);
        }
        offset_at_cell(self.buffer.as_str(), line, column)
    }

    /// The pointer button goes down over the cell `(line, column)`: cursor
    /// and anchor go to the offset under it, and a drag begins. Always asks
    /// for a redraw.
    pub fn handle_mouse_down(&mut self, line: u64, column: u64) -> (redraw: bool)
        requires
            old(self).wf(),
        ensures
            final(self).wf(),
            final(self)@ == old(self)@.press(
                hit_offset(old(self)@.text, line as nat, column as nat),
            ),
            redraw,
    {
        let at: usize = self.position_from_cell(line, column);
        self.drag = DragState::Dragging;
        self.cursor = at;
        self.anchor = Some(at);
        true
    }

    /// The pointer moves to the cell `(line, column)`: during a drag the
    /// cursor goes to the offset under it and a redraw is due; else nothing
    /// changes.
    pub fn handle_mouse_move(&mut self, line: u64, column: u64) -> (redraw: bool)
        requires
            old(self).wf(),
        ensures
            final(self).wf(),
            final(self)@ == old(self)@.drag_to(
                hit_offset(old(self)@.text, line as nat, column as nat),
            ),
            redraw == (old(self)@.drag == DragState::Dragging),
    {
        if self.drag == DragState::Dragging {
            let at: usize = self.position_from_cell(line, column);
            self.cursor = at;
            true
        } else {
            false
        }
    }

    /// The pointer button goes up: the drag ends, and an anchor that the
    /// cursor never left is dropped. Always asks for a redraw.
    pub fn handle_mouse_up(&mut self) -> (redraw: bool)
        requires
            old(self).wf(),
        ensures
            final(self).wf(),
            final(self)@ == old(self)@.release(),
            redraw,
    {
        self.drag = DragState::Idle;
        match self.anchor {
            Some(anchor) => {
                if anchor == self.cursor {
                    self.anchor = None;
                }
            },
            None => {},
        }
        true
    }
}

} // verus!
