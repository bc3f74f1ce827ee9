//! Hit-testing: from a point on the surface to an offset in the text, under
//! fixed metrics. Every character is taken to be 0.6 font sizes wide and
//! every line 1.5 font sizes high.

use crate::lines::{
    find_line_end, find_nth_line_start, lemma_line_bounds_are_boundaries, lemma_line_end,
    lemma_nth_line_start, lemma_nth_line_start_is_boundary, line_count, line_end, nth_line_start,
};
use crate::utf8::{column_offset, lemma_boundary_concat, lemma_boundary_iff, lemma_slice_valid, lemma_split_valid, prefix_len};
use vstd::prelude::*;
use vstd::string::*;
use vstd::utf8::*;

verus! {

/// Blank space above the first line, in pixels.
pub const PADDING_TOP: u32 = 40;

/// Blank space left of the first column, in pixels.
pub const PADDING_LEFT: u32 = 16;

/// Distance of `coordinate` from the edge of the text, where it lies beyond
/// the padding; zero where it lies in the padding.
pub open spec fn past_padding(coordinate: int, padding: int) -> int {
    if coordinate > padding {
        coordinate - padding
    } else {
        0
    }
}

/// Index of the line under height `y`: the height below the padding divided
/// by the line height of 1.5 font sizes, rounded down.
pub open spec fn cell_line(y: int, font_size: int) -> int {
    (10 * past_padding(y, PADDING_TOP as int)) / (15 * font_size)
}

/// Index of the column under `x`: the distance right of the padding divided
/// by the character width of 0.6 font sizes, rounded down.
pub open spec fn cell_column(x: int, font_size: int) -> int {
    (10 * past_padding(x, PADDING_LEFT as int)) / (6 * font_size)
}

/// Line and column under the point `(x, y)`, in that order, before either is
/// held to what the text has.
pub fn cell_at(x: u32, y: u32, font_size: u32) -> (cell: (u64, u64))
    requires
        font_size > 0,
    ensures
        cell.0 == cell_line(y as int, font_size as int),
        cell.1 == cell_column(x as int, font_size as int),
{
    let below: u64 = if y > PADDING_TOP {
        (y - PADDING_TOP) as u64
    } else {
        0
    };
    let right: u64 = if x > PADDING_LEFT {
        (x - PADDING_LEFT) as u64
    } else {
        0
    };
    let size: u64 = font_size as u64;
    ((10 * below) / (15 * size), (10 * right) / (6 * size))
}

/// Offset under the cell `(line, column)`: the line index is held to the
/// lines that the text has, the column to the characters of that line, and
/// the offset is the start of the line plus the encoded length of the
/// characters before the column.
pub open spec fn hit_offset(bytes: Seq<u8>, line: nat, column: nat) -> int {
    let last = (line_count(bytes) - 1) as nat;
    let start = nth_line_start(
        bytes,
        if line < last {
            line
        } else {
            last
        },
    );
    let end = line_end(bytes, start);
    start + prefix_len(decode_utf8(bytes.subrange(start, end)), column as int)
}

/// A hit lands on a character boundary of the line it aims at.
pub proof fn lemma_hit_offset(bytes: Seq<u8>, line: nat, column: nat)
    requires
        valid_utf8(bytes),
    ensures
        0 <= hit_offset(bytes, line, column) <= bytes.len(),
        is_char_boundary(bytes, hit_offset(bytes, line, column)),
        bytes.len() == 0 ==> hit_offset(bytes, line, column) == 0,
{
    let last = (line_count(bytes) - 1) as nat;
    let k = if line < last {
        line
    } else {
        last
    };
    let start = nth_line_start(bytes, k);
    let end = line_end(bytes, start);
    lemma_nth_line_start(bytes, k);
    lemma_nth_line_start_is_boundary(bytes, k);
    lemma_line_end(bytes, start);
    lemma_line_bounds_are_boundaries(bytes, start);
    lemma_row_offset(bytes, start, end, column as int);
}

/// An offset counted in characters from the boundary `start`, within the
/// bytes up to the boundary `end`, is a boundary between the two.
pub proof fn lemma_row_offset(bytes: Seq<u8>, start: int, end: int, column: int)
    requires
        valid_utf8(bytes),
        is_char_boundary(bytes, start),
        is_char_boundary(bytes, end),
        start <= end,
        0 <= column,
    ensures
        start <= start + prefix_len(decode_utf8(bytes.subrange(start, end)), column) <= end,
        is_char_boundary(
            bytes,
            start + prefix_len(decode_utf8(bytes.subrange(start, end)), column),
        ),
{
    lemma_slice_valid(bytes, start, end);
    lemma_split_valid(bytes, start);
    lemma_split_valid(bytes, end);
    let row = bytes.subrange(start, end);
    let chars = decode_utf8(row);
    decode_utf8_encode_utf8(row);
    let k = if column < chars.len() {
        column
    } else {
        chars.len() as int
    };
    let within = prefix_len(chars, column);
    crate::utf8::lemma_prefix_boundary(chars, k);
    let head = bytes.subrange(0, start);
    let rest = bytes.subrange(start, bytes.len() as int);
    let tail = bytes.subrange(end, bytes.len() as int);
    assert(rest =~= row + tail);
    lemma_boundary_concat(row, tail, within);
    lemma_boundary_concat(head, rest, start + within);
}

/// Finds the offset under the cell `(line, column)` in `text`.
pub fn offset_at_cell(text: &str, line: u64, column: u64) -> (offset: usize)
    ensures
        offset == hit_offset(text.spec_bytes(), line as nat, column as nat),
        offset <= text.spec_bytes().len(),
        is_char_boundary(text.spec_bytes(), offset as int),
{
    let bytes = text.as_bytes();
    let ghost all = text.spec_bytes();
    proof {
        encode_utf8_valid_utf8(text@);
        lemma_hit_offset(all, line as nat, column as nat);
        let last = (line_count(all) - 1) as nat;
        if line as nat >= last {
            crate::lines::lemma_nth_line_clamped(all, line as nat);
        }
        lemma_nth_line_start(all, line as nat);
        lemma_nth_line_start_is_boundary(all, line as nat);
    }
    let start: usize = find_nth_line_start(bytes, line);
    let end: usize = find_line_end(bytes, start);
    proof {
        lemma_line_end(all, start as int);
        lemma_line_bounds_are_boundaries(all, start as int);
        lemma_split_valid(all, end as int);
        lemma_boundary_iff(all, start as int);
        lemma_boundary_iff(all.subrange(0, end as int), start as int);
    }
    let (head, _) = text.split_at(end);
    let (_, row) = head.split_at(start);
    proof {
        assert(row.spec_bytes() =~= all.subrange(start as int, end as int));
        encode_utf8_decode_utf8(row@);
    }
    let within: usize = column_offset(row, column);
    start + within
}

} // verus!
