//! The text as a terminal shows it, with marks for the cursor and the
//! selection put in.

use crate::buffer::TextBuffer;
use crate::editor::TextEditor;
use crate::layout::LineView;
use crate::lines::{
    lemma_line_bounds_are_boundaries, lemma_line_end, lemma_nth_line_start,
    lemma_nth_line_start_is_boundary, line_count, line_end, nth_line_start,
};
use crate::state::EditorState;
use crate::utf8::NEWLINE;
use vstd::prelude::*;
use vstd::utf8::*;

verus! {

/// The mark that stands for the cursor.
pub const CURSOR_MARK: char = '\u{2588}';

/// The mark that opens a selection.
pub const SELECTION_OPEN: char = '[';

/// The mark that closes a selection.
pub const SELECTION_CLOSE: char = ']';

/// Blank columns left and right of the text.
pub const MARGIN_X: u16 = 2;

/// Blank rows above and below the text.
pub const MARGIN_Y: u16 = 1;

/// The part of an area that is left for the text once the margins are taken
/// off on all four sides: its corner, its width and its height, in that
/// order. An area too small for the margins leaves no width or no height.
pub fn padded_area(x: u16, y: u16, width: u16, height: u16) -> (inner: (u16, u16, u16, u16))
    requires
        x + MARGIN_X <= u16::MAX,
        y + MARGIN_Y <= u16::MAX,
    ensures
        inner.0 == x + MARGIN_X,
        inner.1 == y + MARGIN_Y,
        inner.2 == if width >= 2 * MARGIN_X {
            width - 2 * MARGIN_X
        } else {
            0
        },
        inner.3 == if height >= 2 * MARGIN_Y {
            height - 2 * MARGIN_Y
        } else {
            0
        },
{
    let inner_width: u16 = if width >= 2 * MARGIN_X {
        width - 2 * MARGIN_X
    } else {
        0
    };
    let inner_height: u16 = if height >= 2 * MARGIN_Y {
        height - 2 * MARGIN_Y
    } else {
        0
    };
    (x + MARGIN_X, y + MARGIN_Y, inner_width, inner_height)
}

/// The bytes of one character.
pub open spec fn mark(c: char) -> Seq<u8> {
    encode_scalar(c as u32)
}

impl EditorState {
    /// The line from `start` to `end` as it is shown. On the line of the
    /// cursor, a selection that begins or ends on the same line stands
    /// between its two marks, and otherwise the cursor's mark stands at the
    /// cursor. Any other line that the selection touches stands between the
    /// two marks as a whole.
    pub open spec fn display_line(self, start: int, end: int) -> Seq<u8> {
        let line = self.text.subrange(start, end);
        if start <= self.cursor <= end {
            if self.has_selection() && start <= self.anchor->0 <= end {
                self.text.subrange(start, self.selection_start()) + mark(SELECTION_OPEN)
                    + self.selected_text() + mark(SELECTION_CLOSE) + self.text.subrange(
                    self.selection_end(),
                    end,
                )
            } else {
                self.text.subrange(start, self.cursor) + mark(CURSOR_MARK) + self.text.subrange(
                    self.cursor,
                    end,
                )
            }
        } else if self.anchor is Some && self.selection_start() <= end && start
            <= self.selection_end() {
            mark(SELECTION_OPEN) + line + mark(SELECTION_CLOSE)
        } else {
            line
        }
    }

    /// Line `i` as it is shown.
    pub open spec fn display_nth_line(self, i: nat) -> Seq<u8> {
        self.display_line(
            nth_line_start(self.text, i),
            line_end(self.text, nth_line_start(self.text, i)),
        )
    }

    /// The first `k` lines as they are shown, with a newline between each two.
    pub open spec fn display_upto(self, k: nat) -> Seq<u8>
        decreases k,
    {
        if k == 0 {
            Seq::<u8>::empty()
        } else if k == 1 {
            self.display_nth_line(0)
        } else {
            self.display_upto((k - 1) as nat) + seq![NEWLINE] + self.display_nth_line(
                (k - 1) as nat,
            )
        }
    }

    /// The whole text as it is shown.
    pub open spec fn display(self) -> Seq<u8> {
        self.display_upto(line_count(self.text))
    }
}

impl TextEditor {
    /// Appends to `out` the line that `view` shows, as it is displayed.
    fn push_display_line(&self, out: &mut TextBuffer, view: LineView)
        requires
            self.wf(),
            view.start <= view.end <= self@.text.len(),
            is_char_boundary(self@.text, view.start as int),
            is_char_boundary(self@.text, view.end as int),
        ensures
            final(out)@ == old(out)@ + self@.display_line(view.start as int, view.end as int),
    {
        proof {
            self.lemma_bounds();
            self@.lemma_selection_bounds();
        }
        let text = self.buffer();
        let cursor: usize = self.cursor_offset();
        let ghost before = out@;
        if view.start <= cursor && cursor <= view.end {
            let mut marked: bool = false;
            if self.has_selection() {
                match (self.selection_anchor(), self.selection_range()) {
                    (Some(anchor), Some((from, to))) => {
                        if view.start <= anchor && anchor <= view.end {
                            out.push_slice(text, view.start, from);
                            out.push_char(SELECTION_OPEN);
                            out.push_slice(text, from, to);
                            out.push_char(SELECTION_CLOSE);
                            out.push_slice(text, to, view.end);
                            marked = true;
                            assert(out@ =~= before + self@.display_line(
                                view.start as int,
                                view.end as int,
                            ));
                        }
                    },
                    _ => {},
                }
            }
            if !marked {
                out.push_slice(text, view.start, cursor);
                out.push_char(CURSOR_MARK);
                out.push_slice(text, cursor, view.end);
                assert(out@ =~= before + self@.display_line(view.start as int, view.end as int));
            }
        } else {
            let touched: bool = match self.selection_range() {
                Some((from, to)) => from <= view.end && view.start <= to,
                None => false,
            };
            if touched {
                out.push_char(SELECTION_OPEN);
                out.push_slice(text, view.start, view.end);
                out.push_char(SELECTION_CLOSE);
            } else {
                out.push_slice(text, view.start, view.end);
            }
            assert(out@ =~= before + self@.display_line(view.start as int, view.end as int));
        }
    }

    /// The text as a terminal shows it: every line as [`EditorState::display_line`]
    /// describes it, with a newline between each two.
    pub fn display_text(&self) -> (shown: String)
        requires
            self.wf(),
        ensures
            encode_utf8(shown@) == self@.display(),
    {
        let views = self.line_views();
        let mut out = TextBuffer::new();
        let mut i: usize = 0;
        while i < views.len()
            invariant
                self.wf(),
                i <= views@.len() == line_count(self@.text),
                forall|j: int|
                    0 <= j < views@.len() ==> self@.shown_by(j as nat, #[trigger] views@[j]),
                out@ == self@.display_upto(i as nat),
            decreases views@.len() - i,
        {
            let view = views[i];
            proof {
                assert(self@.shown_by(i as nat, views@[i as int]));
                self.lemma_bounds();
                lemma_nth_line_start(self@.text, i as nat);
                lemma_nth_line_start_is_boundary(self@.text, i as nat);
                lemma_line_end(self@.text, view.start as int);
                lemma_line_bounds_are_boundaries(self@.text, view.start as int);
            }
            if i > 0 {
                out.push_char('\n');
                proof {
                    assert(leading_byte_width_1(10u32) == 10u8) by (bit_vector);
                    assert(encode_scalar('\n' as u32) =~= seq![NEWLINE]);
                }
            }
            self.push_display_line(&mut out, view);
            proof {
                assert(out@ =~= self@.display_upto((i + 1) as nat));
            }
            i += 1;
        }
        out.into_string()
    }
}

} // verus!
