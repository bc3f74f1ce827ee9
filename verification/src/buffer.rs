//! The text buffer: an owned UTF-8 text addressed by byte offsets, changed
//! only at character boundaries.

use crate::utf8::{
    lemma_boundary_iff, lemma_encode_concat, lemma_encode_push, lemma_slice_valid,
    lemma_split_valid,
};
use vstd::prelude::*;
use vstd::slice::*;
use vstd::string::*;
use vstd::utf8::*;

verus! {

/// `String::push` appends the given character to the end of the string; the
/// characters that were there stay as they are.
pub assume_specification[ String::push ](s: &mut String, ch: char)
    ensures
        final(s)@ == old(s)@.push(ch),
;

/// An owned, growable UTF-8 text. Its view is the sequence of its bytes, which
/// is always valid UTF-8.
pub struct TextBuffer {
    content: String,
}

impl View for TextBuffer {
    type V = Seq<u8>;

    closed spec fn view(&self) -> Seq<u8> {
        encode_utf8(self.content@)
    }
}

impl TextBuffer {
    /// The characters of the text.
    pub closed spec fn chars(&self) -> Seq<char> {
        self.content@
    }

    /// The bytes of a buffer are the encoding of its characters, hence valid
    /// UTF-8 that fits in memory.
    pub proof fn lemma_valid(&self)
        ensures
            valid_utf8(self@),
            self@ == encode_utf8(self.chars()),
            decode_utf8(self@) == self.chars(),
    {
        encode_utf8_valid_utf8(self.content@);
        encode_utf8_decode_utf8(self.content@);
    }

    /// An empty buffer.
    pub fn new() -> (b: Self)
        ensures
            b@ == Seq::<u8>::empty(),
    {
        let b = TextBuffer { content: String::new() };
        assert(b@ =~= Seq::<u8>::empty());
        b
    }

    /// A buffer that holds `text`.
    pub fn from_text(text: &str) -> (b: Self)
        ensures
            b@ == text.spec_bytes(),
    {
        TextBuffer { content: String::from_str(text) }
    }

    /// The text as a string slice.
    pub fn as_str(&self) -> (s: &str)
        ensures
            s.spec_bytes() == self@,
            s@ == self.chars(),
    {
        self.content.as_str()
    }

    /// The bytes of the text.
    pub fn as_bytes(&self) -> (b: &[u8])
        ensures
            b@ == self@,
    {
        self.content.as_str().as_bytes()
    }

    /// Length of the text in bytes.
    pub fn len(&self) -> (n: usize)
        ensures
            n == self@.len(),
    {
        broadcast use axiom_spec_len;

        self.content.as_str().as_bytes().len()
    }

    /// Whether the text is empty.
    pub fn is_empty(&self) -> (e: bool)
        ensures
            e == (self@.len() == 0),
    {
        self.len() == 0
    }

    /// Whether `i` is an offset at which a character begins, or the end of the text.
    pub fn is_boundary(&self, i: usize) -> (b: bool)
        ensures
            b == is_char_boundary(self@, i as int),
    {
        self.content.as_str().is_char_boundary(i)
    }

    /// A copy of the text between two boundaries.
    pub fn slice(&self, start: usize, end: usize) -> (s: String)
        requires
            start <= end,
            is_char_boundary(self@, start as int),
            is_char_boundary(self@, end as int),
        ensures
            s@ == decode_utf8(self@.subrange(start as int, end as int)),
            encode_utf8(s@) == self@.subrange(start as int, end as int),
    {
        proof {
            self.lemma_valid();
            lemma_slice_valid(self@, start as int, end as int);
            lemma_split_valid(self@, end as int);
            lemma_boundary_iff(self@, start as int);
            lemma_boundary_iff(self@.subrange(0, end as int), start as int);
        }
        let (head, _) = self.content.as_str().split_at(end);
        let (_, mid) = head.split_at(start);
        proof {
            assert(mid.spec_bytes() =~= self@.subrange(start as int, end as int));
            encode_utf8_decode_utf8(mid@);
        }
        String::from_str(mid)
    }

    /// The text as an owned string.
    pub fn into_string(self) -> (s: String)
        ensures
            encode_utf8(s@) == self@,
            s@ == self.chars(),
    {
        self.content
    }

    /// Appends `text`.
    pub fn push_str(&mut self, text: &str)
        ensures
            final(self)@ == old(self)@ + text.spec_bytes(),
    {
        proof {
            lemma_encode_concat(self.content@, text@);
        }
        self.content.append(text);
    }

    /// Appends the character `c`.
    pub fn push_char(&mut self, c: char)
        ensures
            final(self)@ == old(self)@ + encode_scalar(c as u32),
    {
        proof {
            lemma_encode_push(self.content@, c);
        }
        self.content.push(c);
    }

    /// Appends the text of `source` between two of its boundaries.
    pub fn push_slice(&mut self, source: &TextBuffer, start: usize, end: usize)
        requires
            start <= end,
            is_char_boundary(source@, start as int),
            is_char_boundary(source@, end as int),
        ensures
            final(self)@ == old(self)@ + source@.subrange(start as int, end as int),
    {
        proof {
            source.lemma_valid();
            lemma_split_valid(source@, end as int);
            lemma_boundary_iff(source@, start as int);
            lemma_boundary_iff(source@.subrange(0, end as int), start as int);
        }
        let (head, _) = source.content.as_str().split_at(end);
        let (_, mid) = head.split_at(start);
        proof {
            assert(mid.spec_bytes() =~= source@.subrange(start as int, end as int));
        }
        self.push_str(mid);
    }

    /// Splices `text` into the buffer at the boundary `at`.
    pub fn insert(&mut self, at: usize, text: &str)
        requires
            is_char_boundary(old(self)@, at as int),
        ensures
            final(self)@ == old(self)@.subrange(0, at as int) + text.spec_bytes() + old(self)@.subrange(
                at as int,
                old(self)@.len() as int,
            ),
    {
        proof {
            self.lemma_valid();
            lemma_split_valid(self@, at as int);
        }
        let (head, tail) = self.content.as_str().split_at(at);
        let mut joined = String::from_str(head);
        joined.append(text);
        joined.append(tail);
        proof {
            lemma_encode_concat(head@, text@);
            lemma_encode_concat(head@ + text@, tail@);
        }
        self.content = joined;
    }

    /// Removes the bytes between the boundaries `start` and `end`.
    pub fn delete_range(&mut self, start: usize, end: usize)
        requires
            start <= end,
            is_char_boundary(old(self)@, start as int),
            is_char_boundary(old(self)@, end as int),
        ensures
            final(self)@ == old(self)@.subrange(0, start as int) + old(self)@.subrange(
                end as int,
                old(self)@.len() as int,
            ),
    {
        proof {
            self.lemma_valid();
            lemma_split_valid(self@, start as int);
            lemma_split_valid(self@, end as int);
        }
        let (head, _) = self.content.as_str().split_at(start);
        let (_, tail) = self.content.as_str().split_at(end);
        let mut joined = String::from_str(head);
        joined.append(tail);
        proof {
            lemma_encode_concat(head@, tail@);
        }
        self.content = joined;
    }
}

} // verus!
