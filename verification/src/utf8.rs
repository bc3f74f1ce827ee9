//! Facts about UTF-8 byte sequences that the editing rules rest on: where
//! characters begin, how boundaries behave under splitting and joining, and
//! how many bytes a character takes.

use vstd::prelude::*;
use vstd::slice::*;
use vstd::string::*;
use vstd::utf8::*;

verus! {

/// The byte that ends a line.
pub const NEWLINE: u8 = 0x0a;

/// A boundary of valid UTF-8 is an offset within the text at which no
/// continuation byte stands.
pub proof fn lemma_boundary_iff(bytes: Seq<u8>, i: int)
    requires
        valid_utf8(bytes),
    ensures
        is_char_boundary(bytes, i) <==> (0 <= i <= bytes.len() && (i < bytes.len()
            ==> !is_continuation_byte(bytes[i]))),
{
    if 0 <= i < bytes.len() {
        is_char_boundary_iff_not_is_continuation_byte(bytes, i);
    } else if i == bytes.len() {
        is_char_boundary_start_end_of_seq(bytes);
    }
}

/// Both ends of valid UTF-8 are boundaries, and every boundary lies within the text.
pub proof fn lemma_boundary_range(bytes: Seq<u8>, i: int)
    requires
        valid_utf8(bytes),
    ensures
        is_char_boundary(bytes, 0),
        is_char_boundary(bytes, bytes.len() as int),
        is_char_boundary(bytes, i) ==> 0 <= i <= bytes.len(),
{
    lemma_boundary_iff(bytes, i);
    is_char_boundary_start_end_of_seq(bytes);
}

/// Valid UTF-8 never starts with a continuation byte.
pub proof fn lemma_first_byte_leads(bytes: Seq<u8>)
    requires
        valid_utf8(bytes),
        bytes.len() > 0,
    ensures
        !is_continuation_byte(bytes[0]),
{
    lemma_boundary_iff(bytes, 0);
}

/// Joining two valid texts gives a valid text whose boundaries are those of
/// the two parts.
pub proof fn lemma_boundary_concat(x: Seq<u8>, y: Seq<u8>, i: int)
    requires
        valid_utf8(x),
        valid_utf8(y),
    ensures
        valid_utf8(x + y),
        is_char_boundary(x + y, i) <==> ((i <= x.len() && is_char_boundary(x, i)) || (i >= x.len()
            && is_char_boundary(y, i - x.len()))),
{
    valid_utf8_concat(x, y);
    lemma_boundary_iff(x + y, i);
    lemma_boundary_iff(x, i);
    lemma_boundary_iff(y, i - x.len());
    if y.len() > 0 {
        lemma_first_byte_leads(y);
    }
}

/// Cutting a valid text at a boundary leaves two valid texts.
pub proof fn lemma_split_valid(bytes: Seq<u8>, i: int)
    requires
        valid_utf8(bytes),
        is_char_boundary(bytes, i),
    ensures
        0 <= i <= bytes.len(),
        valid_utf8(bytes.subrange(0, i)),
        valid_utf8(bytes.subrange(i, bytes.len() as int)),
        bytes.subrange(0, i) + bytes.subrange(i, bytes.len() as int) == bytes,
{
    lemma_boundary_range(bytes, i);
    valid_utf8_split(bytes, i);
    assert(bytes.subrange(0, i) + bytes.subrange(i, bytes.len() as int) =~= bytes);
}

/// The bytes between two boundaries of a valid text are a valid text.
pub proof fn lemma_slice_valid(bytes: Seq<u8>, i: int, j: int)
    requires
        valid_utf8(bytes),
        is_char_boundary(bytes, i),
        is_char_boundary(bytes, j),
        i <= j,
    ensures
        0 <= i <= j <= bytes.len(),
        valid_utf8(bytes.subrange(i, j)),
{
    lemma_split_valid(bytes, j);
    let head = bytes.subrange(0, j);
    lemma_boundary_iff(bytes, i);
    lemma_boundary_iff(head, i);
    lemma_split_valid(head, i);
    assert(head.subrange(i, head.len() as int) =~= bytes.subrange(i, j));
}

/// Encoding distributes over concatenation.
pub proof fn lemma_encode_concat(a: Seq<char>, b: Seq<char>)
    ensures
        encode_utf8(a + b) == encode_utf8(a) + encode_utf8(b),
    decreases a.len(),
{
    if a.len() == 0 {
        assert(a + b =~= b);
        assert(encode_utf8(a) + encode_utf8(b) =~= encode_utf8(b));
    } else {
        lemma_encode_concat(a.drop_first(), b);
        assert((a + b).drop_first() =~= a.drop_first() + b);
        assert(encode_utf8(a + b) =~= encode_utf8(a) + encode_utf8(b));
    }
}

/// Number of bytes in the encoding of `c`.
pub open spec fn width_of(c: char) -> int {
    encode_scalar(c as u32).len() as int
}

/// Number of bytes that `c` takes in UTF-8: between one and four.
pub fn char_width(c: char) -> (w: usize)
    ensures
        w == width_of(c),
        1 <= w <= 4,
{
    proof {
        char_is_scalar(c);
    }
    let v: u32 = c as u32;
    if v < 0x80 {
        1
    } else if v < 0x800 {
        2
    } else if v < 0x10000 {
        3
    } else {
        4
    }
}

/// A text of one more character is longer by that character's width.
pub proof fn lemma_encode_push(chars: Seq<char>, c: char)
    ensures
        encode_utf8(chars.push(c)) == encode_utf8(chars) + encode_scalar(c as u32),
        encode_utf8(chars.push(c)).len() == encode_utf8(chars).len() + width_of(c),
{
    lemma_encode_concat(chars, seq![c]);
    assert(chars.push(c) =~= chars + seq![c]);
    assert(seq![c].drop_first() =~= Seq::<char>::empty());
    assert(encode_utf8(seq![c]) =~= encode_scalar(c as u32)) by {
        reveal_with_fuel(encode_utf8, 2);
    }
}

/// The encoding of a prefix of a text ends on a boundary of the whole text,
/// and is the prefix of the whole encoding.
pub proof fn lemma_prefix_boundary(chars: Seq<char>, k: int)
    requires
        0 <= k <= chars.len(),
    ensures
        encode_utf8(chars.subrange(0, k)).len() <= encode_utf8(chars).len(),
        is_char_boundary(encode_utf8(chars), encode_utf8(chars.subrange(0, k)).len() as int),
        encode_utf8(chars).subrange(0, encode_utf8(chars.subrange(0, k)).len() as int)
            == encode_utf8(chars.subrange(0, k)),
{
    let head = chars.subrange(0, k);
    let tail = chars.subrange(k, chars.len() as int);
    assert(head + tail =~= chars);
    lemma_encode_concat(head, tail);
    encode_utf8_valid_utf8(head);
    encode_utf8_valid_utf8(tail);
    lemma_boundary_concat(encode_utf8(head), encode_utf8(tail), encode_utf8(head).len() as int);
    lemma_boundary_range(encode_utf8(head), 0);
    assert((encode_utf8(head) + encode_utf8(tail)).subrange(0, encode_utf8(head).len() as int)
        =~= encode_utf8(head));
}

/// Length in bytes of the first `col` characters of `chars`, or of all of
/// them where there are fewer.
pub open spec fn prefix_len(chars: Seq<char>, col: int) -> int {
    encode_utf8(chars.subrange(0, if col < chars.len() { col } else { chars.len() as int })).len() as int
}

/// A text has at most as many characters as bytes.
pub proof fn lemma_chars_at_most_bytes(chars: Seq<char>)
    ensures
        chars.len() <= encode_utf8(chars).len(),
    decreases chars.len(),
{
    if chars.len() > 0 {
        lemma_chars_at_most_bytes(chars.drop_first());
        char_is_scalar(chars[0]);
    }
}

/// Byte offset of column `col` in `text`, counting characters; a column past
/// the end of the text gives the length of the text.
pub fn column_offset(text: &str, col: u64) -> (n: usize)
    ensures
        n == prefix_len(text@, col as int),
        n <= text.spec_bytes().len(),
        is_char_boundary(text.spec_bytes(), n as int),
{
    broadcast use axiom_spec_len;

    let total: usize = text.as_bytes().len();
    let mut n: usize = 0;
    let mut i: u64 = 0;
    proof {
        assert(text@.subrange(0, 0) =~= Seq::<char>::empty());
        lemma_chars_at_most_bytes(text@);
    }
    for c in it: text.chars()
        invariant
            it.seq() == text@,
            total == encode_utf8(text@).len(),
            text@.len() <= total,
            i == if it.index() < col { it.index() } else { col as int },
            n == encode_utf8(text@.subrange(0, i as int)).len(),
    {
        if i < col {
            proof {
                lemma_encode_push(text@.subrange(0, i as int), c);
                assert(text@.subrange(0, i as int).push(c) =~= text@.subrange(0, i + 1));
                lemma_prefix_boundary(text@, i + 1);
            }
            n += char_width(c);
            i += 1;
        }
    }
    proof {
        lemma_prefix_boundary(text@, i as int);
    }
    n
}

/// The boundary at `i`, or else the nearest one before it.
pub open spec fn floor_boundary(bytes: Seq<u8>, i: int) -> int
    decreases i,
{
    if i <= 0 {
        0
    } else if is_char_boundary(bytes, i) {
        i
    } else {
        floor_boundary(bytes, i - 1)
    }
}

/// The nearest boundary after `i`, or the end of the text.
pub open spec fn next_boundary(bytes: Seq<u8>, i: int) -> int
    decreases bytes.len() - i,
{
    if i >= bytes.len() {
        bytes.len() as int
    } else if is_char_boundary(bytes, i + 1) {
        i + 1
    } else {
        next_boundary(bytes, i + 1)
    }
}

/// The nearest boundary before `i`, or the start of the text.
pub open spec fn prev_boundary(bytes: Seq<u8>, i: int) -> int {
    floor_boundary(bytes, i - 1)
}

/// `floor_boundary` gives a boundary at or before `i`, with none between it and `i`.
pub proof fn lemma_floor_boundary(bytes: Seq<u8>, i: int)
    requires
        valid_utf8(bytes),
        0 <= i <= bytes.len(),
    ensures
        0 <= floor_boundary(bytes, i) <= i,
        is_char_boundary(bytes, floor_boundary(bytes, i)),
        forall|j: int| floor_boundary(bytes, i) < j <= i ==> !is_char_boundary(bytes, j),
    decreases i,
{
    lemma_boundary_range(bytes, 0);
    if i > 0 && !is_char_boundary(bytes, i) {
        lemma_floor_boundary(bytes, i - 1);
    }
}

/// `next_boundary` gives a boundary after `i`, with none between `i` and it.
pub proof fn lemma_next_boundary(bytes: Seq<u8>, i: int)
    requires
        valid_utf8(bytes),
        0 <= i < bytes.len(),
    ensures
        i < next_boundary(bytes, i) <= bytes.len(),
        is_char_boundary(bytes, next_boundary(bytes, i)),
        forall|j: int| i < j < next_boundary(bytes, i) ==> !is_char_boundary(bytes, j),
    decreases bytes.len() - i,
{
    lemma_boundary_range(bytes, 0);
    if !is_char_boundary(bytes, i + 1) {
        lemma_next_boundary(bytes, i + 1);
    }
}

/// A byte below 0x80 is a whole character: a boundary stands before it and
/// after it.
pub proof fn lemma_single_byte_char(bytes: Seq<u8>, i: int)
    requires
        valid_utf8(bytes),
        0 <= i < bytes.len(),
        bytes[i] < 0x80,
    ensures
        is_char_boundary(bytes, i),
        is_char_boundary(bytes, i + 1),
{
    lemma_boundary_iff(bytes, i);
    lemma_split_valid(bytes, i);
    let rest = bytes.subrange(i, bytes.len() as int);
    assert(rest[0] == bytes[i]);
    assert(length_of_first_scalar(rest) == 1);
    let after = pop_first_scalar(rest);
    assert(valid_utf8(after));
    assert(after =~= bytes.subrange(i + 1, bytes.len() as int));
    lemma_boundary_iff(bytes, i + 1);
    if i + 1 < bytes.len() {
        lemma_first_byte_leads(after);
        assert(after[0] == bytes[i + 1]);
    }
}

} // verus!
