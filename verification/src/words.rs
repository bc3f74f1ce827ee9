//! Word motion: characters fall into three classes, and a word is a run of
//! characters of one class that is not whitespace.

use vstd::prelude::*;
use vstd::slice::*;
use vstd::string::*;

verus! {

/// What `char::is_whitespace` answers for `c`.
pub uninterp spec fn is_whitespace_char(c: char) -> bool;

/// What `char::is_alphanumeric` answers for `c`.
pub uninterp spec fn is_alphanumeric_char(c: char) -> bool;

/// `char::is_whitespace` tells whether a character is white space as Unicode
/// defines it. Its answer depends on the character alone; the contract gives
/// that answer a name and claims nothing else of it.
pub assume_specification[ char::is_whitespace ](c: char) -> (r: bool)
    ensures
        r == is_whitespace_char(c),
;

/// `char::is_alphanumeric` tells whether a character is alphabetic or numeric
/// as Unicode defines it. Its answer depends on the character alone; the
/// contract gives that answer a name and claims nothing else of it.
pub assume_specification[ char::is_alphanumeric ](c: char) -> (r: bool)
    ensures
        r == is_alphanumeric_char(c),
;

/// The class of a character for word motion.
#[derive(Clone, Copy, Debug, PartialEq, Eq, Structural)]
pub enum CharClass {
    /// Alphanumeric characters and the underscore.
    Word,
    /// Everything that is neither part of a word nor whitespace.
    Symbol,
    /// Whitespace.
    Space,
}

/// The class of `c`: whitespace first, then word characters, then the rest.
pub open spec fn class_of(c: char) -> CharClass {
    if is_whitespace_char(c) {
        CharClass::Space
    } else if is_alphanumeric_char(c) || c == '_' {
        CharClass::Word
    } else {
        CharClass::Symbol
    }
}

/// The classes of the characters of a text, in order.
pub open spec fn classes_of(chars: Seq<char>) -> Seq<CharClass> {
    Seq::new(chars.len(), |i: int| class_of(chars[i]))
}

/// Going backwards from index `i`, the first index that holds no whitespace;
/// index 0 is where the search gives up.
pub open spec fn skip_space_back(classes: Seq<CharClass>, i: int) -> int
    decreases i,
{
    if i <= 0 {
        0
    } else if classes[i] == CharClass::Space {
        skip_space_back(classes, i - 1)
    } else {
        i
    }
}

/// First index of the run of equal classes that holds index `i`.
pub open spec fn run_start(classes: Seq<CharClass>, i: int) -> int
    decreases i,
{
    if i <= 0 {
        0
    } else if classes[i - 1] == classes[i] {
        run_start(classes, i - 1)
    } else {
        i
    }
}

/// Going forwards from index `i`, the first index that holds no whitespace,
/// or the length of the text.
pub open spec fn skip_space(classes: Seq<CharClass>, i: int) -> int
    decreases classes.len() - i,
{
    if i >= classes.len() {
        classes.len() as int
    } else if classes[i] == CharClass::Space {
        skip_space(classes, i + 1)
    } else {
        i
    }
}

/// Index just past the run of equal classes that holds index `i`.
pub open spec fn run_end(classes: Seq<CharClass>, i: int) -> int
    decreases classes.len() - i,
{
    if i + 1 >= classes.len() {
        classes.len() as int
    } else if classes[i + 1] == classes[i] {
        run_end(classes, i + 1)
    } else {
        i + 1
    }
}

/// Where a step to the left by one word ends, seen from the end of `classes`:
/// whitespace is passed over, then the run of one class before it.
pub open spec fn word_left_index(classes: Seq<CharClass>) -> int {
    if classes.len() == 0 {
        0
    } else {
        run_start(classes, skip_space_back(classes, classes.len() - 1))
    }
}

/// How many characters a step to the right by one word passes, seen from the
/// start of `classes`: whitespace first, then the run of one class after it.
pub open spec fn word_right_index(classes: Seq<CharClass>) -> int {
    let first = skip_space(classes, 0);
    if first >= classes.len() {
        classes.len() as int
    } else {
        run_end(classes, first)
    }
}

/// What `word_left_index` is, without recursion: behind it lies a run of one
/// class up to some index `q`, before the run stands another class or
/// nothing, and after `q` only whitespace follows.
pub proof fn lemma_word_left_index(classes: Seq<CharClass>)
    requires
        classes.len() > 0,
    ensures
        ({
            let q = skip_space_back(classes, classes.len() - 1);
            let p = word_left_index(classes);
            &&& 0 <= p <= q < classes.len()
            &&& forall|j: int| q < j < classes.len() ==> classes[j] == CharClass::Space
            &&& q > 0 ==> classes[q] != CharClass::Space
            &&& forall|j: int| p <= j <= q ==> classes[j] == classes[q]
            &&& p > 0 ==> classes[p - 1] != classes[q]
        }),
{
    lemma_skip_space_back(classes, classes.len() - 1);
    lemma_run_start(classes, skip_space_back(classes, classes.len() - 1));
}

/// What `word_right_index` is, without recursion: whitespace up to some index
/// `q`, then a run of one class up to the result, after which another class
/// or nothing follows.
pub proof fn lemma_word_right_index(classes: Seq<CharClass>)
    ensures
        ({
            let q = skip_space(classes, 0);
            let p = word_right_index(classes);
            &&& 0 <= q <= p <= classes.len()
            &&& forall|j: int| 0 <= j < q ==> classes[j] == CharClass::Space
            &&& q < classes.len() ==> classes[q] != CharClass::Space && q < p
            &&& forall|j: int| q <= j < p ==> classes[j] == classes[q]
            &&& p < classes.len() ==> classes[p] != classes[q]
        }),
{
    lemma_skip_space(classes, 0);
    let q = skip_space(classes, 0);
    if q < classes.len() {
        lemma_run_end(classes, q);
    }
}

proof fn lemma_skip_space_back(classes: Seq<CharClass>, i: int)
    requires
        0 <= i < classes.len(),
    ensures
        0 <= skip_space_back(classes, i) <= i,
        forall|j: int| skip_space_back(classes, i) < j <= i ==> classes[j] == CharClass::Space,
        skip_space_back(classes, i) > 0 ==> classes[skip_space_back(classes, i)]
            != CharClass::Space,
    decreases i,
{
    if i > 0 && classes[i] == CharClass::Space {
        lemma_skip_space_back(classes, i - 1);
    }
}

proof fn lemma_run_start(classes: Seq<CharClass>, i: int)
    requires
        0 <= i < classes.len(),
    ensures
        0 <= run_start(classes, i) <= i,
        forall|j: int| run_start(classes, i) <= j <= i ==> classes[j] == classes[i],
        run_start(classes, i) > 0 ==> classes[run_start(classes, i) - 1] != classes[i],
    decreases i,
{
    if i > 0 && classes[i - 1] == classes[i] {
        lemma_run_start(classes, i - 1);
    }
}

proof fn lemma_skip_space(classes: Seq<CharClass>, i: int)
    requires
        0 <= i <= classes.len(),
    ensures
        i <= skip_space(classes, i) <= classes.len(),
        forall|j: int| i <= j < skip_space(classes, i) ==> classes[j] == CharClass::Space,
        skip_space(classes, i) < classes.len() ==> classes[skip_space(classes, i)]
            != CharClass::Space,
    decreases classes.len() - i,
{
    if i < classes.len() && classes[i] == CharClass::Space {
        lemma_skip_space(classes, i + 1);
    }
}

proof fn lemma_run_end(classes: Seq<CharClass>, i: int)
    requires
        0 <= i < classes.len(),
    ensures
        i < run_end(classes, i) <= classes.len(),
        forall|j: int| i <= j < run_end(classes, i) ==> classes[j] == classes[i],
        run_end(classes, i) < classes.len() ==> classes[run_end(classes, i)] != classes[i],
    decreases classes.len() - i,
{
    if i + 1 < classes.len() && classes[i + 1] == classes[i] {
        lemma_run_end(classes, i + 1);
    }
}

/// Classifies one character.
pub fn classify(c: char) -> (k: CharClass)
    ensures
        k == class_of(c),
{
    if c.is_whitespace() {
        CharClass::Space
    } else if c.is_alphanumeric() || c == '_' {
        CharClass::Word
    } else {
        CharClass::Symbol
    }
}

/// Classifies every character of `text`.
pub fn classify_text(text: &str) -> (classes: Vec<CharClass>)
    ensures
        classes@ == classes_of(text@),
{
    let mut classes: Vec<CharClass> = Vec::new();
    for c in it: text.chars()
        invariant
            it.seq() == text@,
            classes@ == classes_of(text@.subrange(0, it.index() as int)),
    {
        classes.push(classify(c));
        assert(classes@ =~= classes_of(text@.subrange(0, it.index() + 1)));
    }
    assert(text@.subrange(0, text@.len() as int) =~= text@);
    classes
}

/// Index at which a step to the left by one word ends, for a cursor at the
/// end of `classes`.
pub fn word_left(classes: &[CharClass]) -> (p: usize)
    ensures
        p == word_left_index(classes@),
        p <= classes@.len(),
{
    broadcast use axiom_spec_len;

    let n: usize = classes.len();
    if n == 0 {
        return 0;
    }
    let mut pos: usize = n - 1;
    while pos > 0 && classes[pos] == CharClass::Space
        invariant
            pos < n == classes@.len(),
            skip_space_back(classes@, pos as int) == skip_space_back(classes@, n - 1),
        decreases pos,
    {
        pos -= 1;
    }
    let ghost first: int = pos as int;
    while pos > 0 && classes[pos - 1] == classes[pos]
        invariant
            pos <= first < n == classes@.len(),
            run_start(classes@, pos as int) == run_start(classes@, first),
        decreases pos,
    {
        pos -= 1;
    }
    pos
}

/// Number of characters that a step to the right by one word passes, for a
/// cursor at the start of `classes`.
pub fn word_right(classes: &[CharClass]) -> (p: usize)
    ensures
        p == word_right_index(classes@),
        p <= classes@.len(),
{
    broadcast use axiom_spec_len;

    let n: usize = classes.len();
    let mut pos: usize = 0;
    while pos < n && classes[pos] == CharClass::Space
        invariant
            pos <= n == classes@.len(),
            skip_space(classes@, pos as int) == skip_space(classes@, 0),
        decreases n - pos,
    {
        pos += 1;
    }
    if pos >= n {
        return n;
    }
    let ghost first: int = pos as int;
    while pos + 1 < n && classes[pos + 1] == classes[pos]
        invariant
            first <= pos < n == classes@.len(),
            run_end(classes@, pos as int) == run_end(classes@, first),
        decreases n - pos,
    {
        pos += 1;
    }
    pos + 1
}

} // verus!
