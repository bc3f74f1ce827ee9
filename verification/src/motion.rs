//! Where a cursor goes: for each kind of motion, the offset it leads to from a
//! given offset in a given text.

use crate::lines::{lemma_line_bounds_are_boundaries, lemma_line_end, lemma_line_start, line_end, line_start};
use crate::utf8::{
    floor_boundary, lemma_boundary_concat, lemma_boundary_range, lemma_floor_boundary,
    lemma_next_boundary, lemma_prefix_boundary, lemma_split_valid, next_boundary, prefix_len,
    prev_boundary,
};
use crate::words::{classes_of, word_left_index, word_right_index};
use vstd::math::min;
use vstd::prelude::*;
use vstd::utf8::*;

verus! {

/// The ways in which a cursor travels.
#[derive(Clone, Copy, Debug, PartialEq, Eq, Structural)]
pub enum Motion {
    /// One character back.
    Left,
    /// One character forward.
    Right,
    /// To the line above, keeping the column.
    Up,
    /// To the line below, keeping the column.
    Down,
    /// Back over whitespace and the word before it.
    WordLeft,
    /// Forward over whitespace and the word after it.
    WordRight,
    /// To the start of the line.
    LineStart,
    /// To the end of the line.
    LineEnd,
}

/// Offset one line up from `cursor`. The column is the byte distance from the
/// start of the line; it is kept as far as the line above reaches, and an
/// offset that would fall inside a character moves back to where that
/// character begins. On the first line the offset stays.
pub open spec fn up_target(bytes: Seq<u8>, cursor: int) -> int {
    let start = line_start(bytes, cursor);
    if start == 0 {
        cursor
    } else {
        let above_end = start - 1;
        let above_start = line_start(bytes, above_end);
        floor_boundary(bytes, above_start + min(cursor - start, above_end - above_start))
    }
}

/// Offset one line down from `cursor`, with the column treated as in
/// [`up_target`]. On the last line the offset stays.
pub open spec fn down_target(bytes: Seq<u8>, cursor: int) -> int {
    let end = line_end(bytes, cursor);
    if end >= bytes.len() {
        cursor
    } else {
        let below_start = end + 1;
        let below_end = line_end(bytes, below_start);
        floor_boundary(
            bytes,
            below_start + min(cursor - line_start(bytes, cursor), below_end - below_start),
        )
    }
}

/// Offset one word to the left of `cursor`: the characters before the cursor
/// are decoded and classified, and the characters that stay before the new
/// offset are encoded again to find it.
pub open spec fn word_left_target(bytes: Seq<u8>, cursor: int) -> int {
    let chars = decode_utf8(bytes.subrange(0, cursor));
    prefix_len(chars, word_left_index(classes_of(chars)))
}

/// Offset one word to the right of `cursor`: the characters after the cursor
/// are decoded and classified, and the encoded length of those that are
/// passed is added to the offset.
pub open spec fn word_right_target(bytes: Seq<u8>, cursor: int) -> int {
    let chars = decode_utf8(bytes.subrange(cursor, bytes.len() as int));
    cursor + prefix_len(chars, word_right_index(classes_of(chars)))
}

/// Offset to which `motion` leads from `cursor`.
pub open spec fn target(bytes: Seq<u8>, cursor: int, motion: Motion) -> int {
    match motion {
        Motion::Left => prev_boundary(bytes, cursor),
        Motion::Right => next_boundary(bytes, cursor),
        Motion::Up => up_target(bytes, cursor),
        Motion::Down => down_target(bytes, cursor),
        Motion::WordLeft => word_left_target(bytes, cursor),
        Motion::WordRight => word_right_target(bytes, cursor),
        Motion::LineStart => line_start(bytes, cursor),
        Motion::LineEnd => line_end(bytes, cursor),
    }
}

/// Whether `motion` has somewhere to go from `cursor`: a motion by characters
/// or words needs text on its side of the cursor, a motion up or down needs a
/// line there, and a motion within the line always applies.
pub open spec fn applies(bytes: Seq<u8>, cursor: int, motion: Motion) -> bool {
    match motion {
        Motion::Left | Motion::WordLeft => cursor > 0,
        Motion::Right | Motion::WordRight => cursor < bytes.len(),
        Motion::Up => line_start(bytes, cursor) > 0,
        Motion::Down => line_end(bytes, cursor) < bytes.len(),
        Motion::LineStart | Motion::LineEnd => true,
    }
}

/// A motion up ends on a boundary on the line above.
pub proof fn lemma_up_target(bytes: Seq<u8>, cursor: int)
    requires
        valid_utf8(bytes),
        is_char_boundary(bytes, cursor),
    ensures
        is_char_boundary(bytes, up_target(bytes, cursor)),
        line_start(bytes, cursor) > 0 ==> line_start(bytes, line_start(bytes, cursor) - 1)
            <= up_target(bytes, cursor) < line_start(bytes, cursor),
{
    lemma_boundary_range(bytes, cursor);
    lemma_line_start(bytes, cursor);
    let start = line_start(bytes, cursor);
    if start > 0 {
        let above_end = start - 1;
        let above_start = line_start(bytes, above_end);
        lemma_line_start(bytes, above_end);
        lemma_line_bounds_are_boundaries(bytes, above_end);
        let aim = above_start + min(cursor - start, above_end - above_start);
        lemma_floor_boundary(bytes, aim);
    }
}

/// A motion down ends on a boundary on the line below.
pub proof fn lemma_down_target(bytes: Seq<u8>, cursor: int)
    requires
        valid_utf8(bytes),
        is_char_boundary(bytes, cursor),
    ensures
        is_char_boundary(bytes, down_target(bytes, cursor)),
        line_end(bytes, cursor) < bytes.len() ==> line_end(bytes, cursor) < down_target(
            bytes,
            cursor,
        ) <= line_end(bytes, line_end(bytes, cursor) + 1),
{
    lemma_boundary_range(bytes, cursor);
    lemma_line_end(bytes, cursor);
    lemma_line_start(bytes, cursor);
    let end = line_end(bytes, cursor);
    if end < bytes.len() {
        let below_start = end + 1;
        let below_end = line_end(bytes, below_start);
        lemma_line_end(bytes, below_start);
        lemma_line_start(bytes, below_start);
        lemma_line_bounds_are_boundaries(bytes, below_start);
        let aim = below_start + min(cursor - line_start(bytes, cursor), below_end - below_start);
        lemma_floor_boundary(bytes, aim);
    }
}

/// A motion by one word to the left ends on a boundary at or before the cursor.
pub proof fn lemma_word_left_target(bytes: Seq<u8>, cursor: int)
    requires
        valid_utf8(bytes),
        is_char_boundary(bytes, cursor),
    ensures
        0 <= word_left_target(bytes, cursor) <= cursor,
        is_char_boundary(bytes, word_left_target(bytes, cursor)),
{
    lemma_boundary_range(bytes, cursor);
    lemma_split_valid(bytes, cursor);
    let head = bytes.subrange(0, cursor);
    let tail = bytes.subrange(cursor, bytes.len() as int);
    let chars = decode_utf8(head);
    decode_utf8_encode_utf8(head);
    let k = word_left_index(classes_of(chars));
    let kk = if k < chars.len() { k } else { chars.len() as int };
    if chars.len() > 0 {
        crate::words::lemma_word_left_index(classes_of(chars));
    }
    lemma_prefix_boundary(chars, kk);
    lemma_boundary_concat(head, tail, word_left_target(bytes, cursor));
}

/// A motion by one word to the right ends on a boundary at or after the cursor.
pub proof fn lemma_word_right_target(bytes: Seq<u8>, cursor: int)
    requires
        valid_utf8(bytes),
        is_char_boundary(bytes, cursor),
    ensures
        cursor <= word_right_target(bytes, cursor) <= bytes.len(),
        is_char_boundary(bytes, word_right_target(bytes, cursor)),
{
    lemma_boundary_range(bytes, cursor);
    lemma_split_valid(bytes, cursor);
    let head = bytes.subrange(0, cursor);
    let tail = bytes.subrange(cursor, bytes.len() as int);
    let chars = decode_utf8(tail);
    decode_utf8_encode_utf8(tail);
    let k = word_right_index(classes_of(chars));
    let kk = if k < chars.len() { k } else { chars.len() as int };
    crate::words::lemma_word_right_index(classes_of(chars));
    lemma_prefix_boundary(chars, kk);
    lemma_boundary_concat(head, tail, word_right_target(bytes, cursor));
}

/// Every motion from a boundary of a valid text ends on a boundary of it.
pub proof fn lemma_target_is_boundary(bytes: Seq<u8>, cursor: int, motion: Motion)
    requires
        valid_utf8(bytes),
        is_char_boundary(bytes, cursor),
    ensures
        is_char_boundary(bytes, target(bytes, cursor, motion)),
        0 <= target(bytes, cursor, motion) <= bytes.len(),
        !applies(bytes, cursor, motion) ==> target(bytes, cursor, motion) == cursor,
{
    lemma_boundary_range(bytes, cursor);
    match motion {
        Motion::Left => {
            if cursor > 0 {
                lemma_floor_boundary(bytes, cursor - 1);
            }
        },
        Motion::Right => {
            if cursor < bytes.len() {
                lemma_next_boundary(bytes, cursor);
            }
        },
        Motion::Up => {
            lemma_line_start(bytes, cursor);
            lemma_up_target(bytes, cursor);
        },
        Motion::Down => {
            lemma_down_target(bytes, cursor);
        },
        Motion::WordLeft => {
            lemma_word_left_target(bytes, cursor);
        },
        Motion::WordRight => {
            lemma_word_right_target(bytes, cursor);
        },
        Motion::LineStart => {
            lemma_line_start(bytes, cursor);
            lemma_line_bounds_are_boundaries(bytes, cursor);
        },
        Motion::LineEnd => {
            lemma_line_end(bytes, cursor);
            lemma_line_bounds_are_boundaries(bytes, cursor);
        },
    }
    lemma_boundary_range(bytes, target(bytes, cursor, motion));
}

} // verus!
