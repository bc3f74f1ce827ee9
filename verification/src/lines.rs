//! Lines of a text: the stretches between newline bytes. Nothing is cached;
//! every question is answered by scanning the bytes.

use crate::utf8::{lemma_boundary_range, lemma_single_byte_char, NEWLINE};
use vstd::prelude::*;
use vstd::slice::*;
use vstd::utf8::*;

verus! {

/// Start of the line that holds offset `pos`: just after the nearest newline
/// before `pos`, or the start of the text.
pub open spec fn line_start(bytes: Seq<u8>, pos: int) -> int
    decreases pos,
{
    if pos <= 0 {
        0
    } else if bytes[pos - 1] == NEWLINE {
        pos
    } else {
        line_start(bytes, pos - 1)
    }
}

/// End of the line that holds offset `pos`: the nearest newline at or after
/// `pos`, or the end of the text.
pub open spec fn line_end(bytes: Seq<u8>, pos: int) -> int
    decreases bytes.len() - pos,
{
    if pos >= bytes.len() {
        bytes.len() as int
    } else if bytes[pos] == NEWLINE {
        pos
    } else {
        line_end(bytes, pos + 1)
    }
}

/// Number of newline bytes in `bytes`.
pub open spec fn count_newlines(bytes: Seq<u8>) -> nat
    decreases bytes.len(),
{
    if bytes.len() == 0 {
        0
    } else {
        count_newlines(bytes.drop_last()) + if bytes.last() == NEWLINE {
            1nat
        } else {
            0nat
        }
    }
}

/// Number of lines of a text: one more than it has newlines.
pub open spec fn line_count(bytes: Seq<u8>) -> nat {
    count_newlines(bytes) + 1
}

/// Index of the line that holds offset `pos`: the number of newlines before it.
pub open spec fn line_index(bytes: Seq<u8>, pos: int) -> nat {
    count_newlines(bytes.subrange(0, pos))
}

/// Start of the line with index `k`, or of the last line where the text has
/// no line `k`.
pub open spec fn nth_line_start(bytes: Seq<u8>, k: nat) -> int
    decreases k,
{
    if k == 0 {
        0
    } else {
        let start = nth_line_start(bytes, (k - 1) as nat);
        let end = line_end(bytes, start);
        if end >= bytes.len() {
            start
        } else {
            end + 1
        }
    }
}

/// `line_start` lies at or before `pos`, follows a newline unless it is the
/// start of the text, and no newline stands between it and `pos`.
pub proof fn lemma_line_start(bytes: Seq<u8>, pos: int)
    requires
        0 <= pos <= bytes.len(),
    ensures
        0 <= line_start(bytes, pos) <= pos,
        line_start(bytes, pos) == 0 || bytes[line_start(bytes, pos) - 1] == NEWLINE,
        forall|j: int| line_start(bytes, pos) <= j < pos ==> bytes[j] != NEWLINE,
    decreases pos,
{
    if pos > 0 && bytes[pos - 1] != NEWLINE {
        lemma_line_start(bytes, pos - 1);
    }
}

/// `line_end` lies at or after `pos`, holds a newline unless it is the end of
/// the text, and no newline stands between `pos` and it.
pub proof fn lemma_line_end(bytes: Seq<u8>, pos: int)
    requires
        0 <= pos <= bytes.len(),
    ensures
        pos <= line_end(bytes, pos) <= bytes.len(),
        line_end(bytes, pos) == bytes.len() || bytes[line_end(bytes, pos)] == NEWLINE,
        forall|j: int| pos <= j < line_end(bytes, pos) ==> bytes[j] != NEWLINE,
    decreases bytes.len() - pos,
{
    if pos < bytes.len() && bytes[pos] != NEWLINE {
        lemma_line_end(bytes, pos + 1);
    }
}

/// Every offset of a line has the same start and the same end.
pub proof fn lemma_same_line(bytes: Seq<u8>, a: int, b: int)
    requires
        0 <= a <= b <= bytes.len(),
        forall|j: int| a <= j < b ==> bytes[j] != NEWLINE,
    ensures
        line_start(bytes, a) == line_start(bytes, b),
        line_end(bytes, a) == line_end(bytes, b),
    decreases b - a,
{
    if a < b {
        lemma_same_line(bytes, a, b - 1);
        lemma_same_line(bytes, a + 1, b);
    }
}

/// In valid UTF-8 the start and the end of a line are character boundaries.
pub proof fn lemma_line_bounds_are_boundaries(bytes: Seq<u8>, pos: int)
    requires
        valid_utf8(bytes),
        0 <= pos <= bytes.len(),
    ensures
        is_char_boundary(bytes, line_start(bytes, pos)),
        is_char_boundary(bytes, line_end(bytes, pos)),
{
    lemma_line_start(bytes, pos);
    lemma_line_end(bytes, pos);
    lemma_boundary_range(bytes, 0);
    let s = line_start(bytes, pos);
    if s > 0 {
        lemma_single_byte_char(bytes, s - 1);
    }
    let e = line_end(bytes, pos);
    if e < bytes.len() {
        lemma_single_byte_char(bytes, e);
    }
}

/// Scans backwards from `pos` for the start of its line.
pub fn find_line_start(bytes: &[u8], pos: usize) -> (start: usize)
    requires
        pos <= bytes@.len(),
    ensures
        start == line_start(bytes@, pos as int),
{
    let mut i: usize = pos;
    while i > 0 && bytes[i - 1] != NEWLINE
        invariant
            i <= pos <= bytes@.len(),
            line_start(bytes@, i as int) == line_start(bytes@, pos as int),
        decreases i,
    {
        i -= 1;
    }
    i
}

/// Scans forwards from `pos` for the end of its line.
pub fn find_line_end(bytes: &[u8], pos: usize) -> (end: usize)
    requires
        pos <= bytes@.len(),
    ensures
        end == line_end(bytes@, pos as int),
{
    broadcast use axiom_spec_len;

    let n: usize = bytes.len();
    let mut i: usize = pos;
    while i < n && bytes[i] != NEWLINE
        invariant
            pos <= i <= n == bytes@.len(),
            line_end(bytes@, i as int) == line_end(bytes@, pos as int),
        decreases n - i,
    {
        i += 1;
    }
    i
}

/// Counts the newlines before `pos`: the index of the line that holds `pos`.
pub fn find_line_index(bytes: &[u8], pos: usize) -> (index: usize)
    requires
        pos <= bytes@.len(),
    ensures
        index == line_index(bytes@, pos as int),
{
    let mut index: usize = 0;
    let mut i: usize = 0;
    assert(bytes@.subrange(0, 0) =~= Seq::<u8>::empty());
    while i < pos
        invariant
            i <= pos <= bytes@.len(),
            index <= i,
            index == count_newlines(bytes@.subrange(0, i as int)),
        decreases pos - i,
    {
        assert(bytes@.subrange(0, i + 1).drop_last() =~= bytes@.subrange(0, i as int));
        if bytes[i] == NEWLINE {
            index += 1;
        }
        i += 1;
    }
    index
}

/// Finds the start of line `k`, or of the last line where there is no line `k`.
pub fn find_nth_line_start(bytes: &[u8], k: u64) -> (start: usize)
    ensures
        start == nth_line_start(bytes@, k as nat),
        start <= bytes@.len(),
{
    broadcast use axiom_spec_len;

    let n: usize = bytes.len();
    let mut start: usize = 0;
    let mut line: u64 = 0;
    while line < k
        invariant
            line <= k,
            start <= n == bytes@.len(),
            start == nth_line_start(bytes@, line as nat),
        decreases k - line,
    {
        let end: usize = find_line_end(bytes, start);
        proof {
            lemma_line_end(bytes@, start as int);
        }
        if end >= n {
            proof {
                lemma_last_line_stays(bytes@, line as nat, k as nat);
            }
            return start;
        }
        start = end + 1;
        line += 1;
    }
    start
}

/// Once `nth_line_start` has reached the last line, it stays there.
pub proof fn lemma_last_line_stays(bytes: Seq<u8>, k: nat, m: nat)
    requires
        k <= m,
        line_end(bytes, nth_line_start(bytes, k)) >= bytes.len(),
    ensures
        nth_line_start(bytes, m) == nth_line_start(bytes, k),
    decreases m,
{
    if k < m {
        lemma_last_line_stays(bytes, k, (m - 1) as nat);
    }
}

/// Taking one more byte into account adds one to the count where that byte
/// is a newline.
pub proof fn lemma_count_step(bytes: Seq<u8>, i: int)
    requires
        0 <= i < bytes.len(),
    ensures
        count_newlines(bytes.subrange(0, i + 1)) == count_newlines(bytes.subrange(0, i)) + if bytes[i]
            == NEWLINE {
            1nat
        } else {
            0nat
        },
{
    assert(bytes.subrange(0, i + 1).drop_last() =~= bytes.subrange(0, i));
}

/// A longer prefix holds at least as many newlines, and exactly as many
/// where no newline stands in the added bytes.
pub proof fn lemma_count_range(bytes: Seq<u8>, a: int, b: int)
    requires
        0 <= a <= b <= bytes.len(),
    ensures
        count_newlines(bytes.subrange(0, a)) <= count_newlines(bytes.subrange(0, b)),
        (forall|j: int| a <= j < b ==> bytes[j] != NEWLINE) ==> count_newlines(
            bytes.subrange(0, a),
        ) == count_newlines(bytes.subrange(0, b)),
    decreases b - a,
{
    if a < b {
        lemma_count_range(bytes, a, b - 1);
        lemma_count_step(bytes, b - 1);
    }
}

/// Line `k` starts within the text, at its start or after a newline, and as
/// many newlines stand before it as its index says. From the last line on,
/// no newline follows.
pub proof fn lemma_nth_line_start(bytes: Seq<u8>, k: nat)
    ensures
        0 <= nth_line_start(bytes, k) <= bytes.len(),
        nth_line_start(bytes, k) == 0 || bytes[nth_line_start(bytes, k) - 1] == NEWLINE,
        line_index(bytes, nth_line_start(bytes, k)) == if k < count_newlines(bytes) {
            k
        } else {
            count_newlines(bytes)
        },
        k >= count_newlines(bytes) ==> line_end(bytes, nth_line_start(bytes, k)) == bytes.len(),
    decreases k,
{
    let total = count_newlines(bytes);
    let len = bytes.len() as int;
    assert(bytes.subrange(0, len) =~= bytes);
    if k == 0 {
        assert(bytes.subrange(0, 0) =~= Seq::<u8>::empty());
    } else {
        lemma_nth_line_start(bytes, (k - 1) as nat);
        let before = nth_line_start(bytes, (k - 1) as nat);
        let end = line_end(bytes, before);
        lemma_line_end(bytes, before);
        lemma_count_range(bytes, before, end);
        if end < len {
            lemma_count_step(bytes, end);
            lemma_count_range(bytes, end + 1, len);
        } else {
            lemma_count_range(bytes, before, len);
        }
    }
    let start = nth_line_start(bytes, k);
    if k >= total {
        let end = line_end(bytes, start);
        lemma_line_end(bytes, start);
        lemma_count_range(bytes, start, end);
        if end < len {
            lemma_count_step(bytes, end);
            lemma_count_range(bytes, end + 1, len);
        }
    }
}

/// An index past the last line names the last line.
pub proof fn lemma_nth_line_clamped(bytes: Seq<u8>, k: nat)
    requires
        k >= line_count(bytes) - 1,
    ensures
        nth_line_start(bytes, k) == nth_line_start(bytes, (line_count(bytes) - 1) as nat),
{
    let last = count_newlines(bytes);
    lemma_nth_line_start(bytes, last);
    lemma_last_line_stays(bytes, last, k);
}

/// In valid UTF-8 every line starts on a character boundary.
pub proof fn lemma_nth_line_start_is_boundary(bytes: Seq<u8>, k: nat)
    requires
        valid_utf8(bytes),
    ensures
        is_char_boundary(bytes, nth_line_start(bytes, k)),
{
    lemma_nth_line_start(bytes, k);
    lemma_boundary_range(bytes, 0);
    let start = nth_line_start(bytes, k);
    if start > 0 {
        lemma_single_byte_char(bytes, start - 1);
    }
}

} // verus!
