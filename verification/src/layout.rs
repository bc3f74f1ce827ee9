//! What a renderer needs to know of each line: where it lies in the text,
//! which part of it is selected, and where on it the cursor stands.

use crate::editor::TextEditor;
use crate::lines::{
    find_line_end, find_line_index, find_line_start, lemma_count_range,
    lemma_count_step, lemma_line_end, lemma_line_start, line_count, line_end, line_index,
    line_start, nth_line_start,
};
use crate::state::EditorState;
use vstd::prelude::*;

verus! {

/// One line as a renderer sees it. Columns count bytes from the start of the
/// line.
#[derive(Clone, Copy, Debug, PartialEq, Eq)]
pub struct LineView {
    /// Offset at which the line starts.
    pub start: usize,
    /// Offset at which the line ends: that of its newline, or of the end of
    /// the text.
    pub end: usize,
    /// The columns between which the line is selected, if any of it is.
    pub selection: Option<(usize, usize)>,
    /// The column of the cursor, if the cursor stands on the line.
    pub cursor: Option<usize>,
}

impl EditorState {
    /// Index of the line on which the cursor stands.
    pub open spec fn cursor_line(self) -> nat {
        line_index(self.text, self.cursor)
    }

    /// Column of the cursor: its distance in bytes from the start of its line.
    pub open spec fn cursor_column(self) -> int {
        self.cursor - line_start(self.text, self.cursor)
    }

    /// The columns between which the line from `start` to `end` is selected:
    /// the part of an active selection that lies on the line, if the two
    /// overlap.
    pub open spec fn selection_on(self, start: int, end: int) -> Option<(int, int)> {
        if self.has_selection() && self.selection_start() < end && self.selection_end() > start {
            Some(
                (
                    if self.selection_start() > start {
                        self.selection_start() - start
                    } else {
                        0
                    },
                    if self.selection_end() < end {
                        self.selection_end() - start
                    } else {
                        end - start
                    },
                ),
            )
        } else {
            None
        }
    }

    /// The column of the cursor on the line from `start` to `end`, if the
    /// cursor stands on it.
    pub open spec fn cursor_on(self, start: int, end: int) -> Option<int> {
        if start <= self.cursor <= end {
            Some(self.cursor - start)
        } else {
            None
        }
    }

    /// Whether `view` shows line `i` of this state.
    pub open spec fn shown_by(self, i: nat, view: LineView) -> bool {
        &&& view.start == nth_line_start(self.text, i)
        &&& view.end == line_end(self.text, view.start as int)
        &&& match view.selection {
            Some((from, to)) => self.selection_on(view.start as int, view.end as int) == Some(
                (from as int, to as int),
            ),
            None => self.selection_on(view.start as int, view.end as int) is None,
        }
        &&& match view.cursor {
            Some(column) => self.cursor_on(view.start as int, view.end as int) == Some(
                column as int,
            ),
            None => self.cursor_on(view.start as int, view.end as int) is None,
        }
    }
}

impl TextEditor {
    /// Line and column of the cursor, in that order: the number of newlines
    /// before it, and its distance in bytes from the start of its line.
    pub fn cursor_line_and_column(&self) -> (at: (usize, usize))
        requires
            self.wf(),
        ensures
            at.0 == self@.cursor_line(),
            at.1 == self@.cursor_column(),
    {
        proof {
            self.lemma_bounds();
            lemma_line_start(self@.text, self@.cursor);
        }
        let bytes = self.content().as_bytes();
        let cursor: usize = self.cursor_offset();
        (find_line_index(bytes, cursor), cursor - find_line_start(bytes, cursor))
    }

    /// The view of the line that starts at `start`.
    fn line_view_at(&self, start: usize) -> (view: LineView)
        requires
            self.wf(),
            start <= self@.text.len(),
        ensures
            view.start == start,
            view.end == line_end(self@.text, start as int),
            start <= view.end <= self@.text.len(),
            forall|i: nat| start == nth_line_start(self@.text, i) ==> self@.shown_by(i, view),
    {
        proof {
            self.lemma_bounds();
            lemma_line_end(self@.text, start as int);
            self@.lemma_selection_bounds();
        }
        let end: usize = find_line_end(self.content().as_bytes(), start);
        let cursor: usize = self.cursor_offset();
        let mut selection: Option<(usize, usize)> = None;
        if self.has_selection() {
            match self.selection_range() {
                Some((from, to)) => {
                    if from < end && to > start {
                        let first: usize = if from > start {
                            from - start
                        } else {
                            0
                        };
                        let last: usize = if to < end {
                            to - start
                        } else {
                            end - start
                        };
                        selection = Some((first, last));
                    }
                },
                None => {},
            }
        }
        let on_line: Option<usize> = if start <= cursor && cursor <= end {
            Some(cursor - start)
        } else {
            None
        };
        LineView { start, end, selection, cursor: on_line }
    }

    /// The lines of the text as a renderer sees them, from first to last.
    pub fn line_views(&self) -> (views: Vec<LineView>)
        requires
            self.wf(),
        ensures
            views@.len() == line_count(self@.text),
            forall|i: int| 0 <= i < views@.len() ==> self@.shown_by(i as nat, #[trigger] views@[i]),
    {
        let n: usize = self.len();
        let mut views: Vec<LineView> = Vec::new();
        let mut start: usize = 0;
        proof {
            assert(self@.text.subrange(0, 0) =~= Seq::<u8>::empty());
            assert(self@.text.subrange(0, n as int) =~= self@.text);
        }
        loop
            invariant_except_break
                start == nth_line_start(self@.text, views@.len()),
                views@.len() == line_index(self@.text, start as int),
            invariant
                self.wf(),
                n == self@.text.len(),
                start <= n,
                self@.text.subrange(0, n as int) == self@.text,
                forall|i: int|
                    0 <= i < views@.len() ==> self@.shown_by(i as nat, #[trigger] views@[i]),
            ensures
                views@.len() == line_count(self@.text),
                forall|i: int|
                    0 <= i < views@.len() ==> self@.shown_by(i as nat, #[trigger] views@[i]),
            decreases n - start,
        {
            let view = self.line_view_at(start);
            let ghost before = views@;
            views.push(view);
            proof {
                assert(self@.shown_by(before.len(), view));
                lemma_line_end(self@.text, start as int);
                lemma_count_range(self@.text, start as int, view.end as int);
            }
            if view.end >= n {
                break;
            }
            proof {
                lemma_count_step(self@.text, view.end as int);
            }
            start = view.end + 1;
        }
        views
    }
}

} // verus!
