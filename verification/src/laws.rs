//! What holds of the editing rules taken together.

use crate::hit::{hit_offset, lemma_hit_offset};
use crate::lines::{lemma_line_end, lemma_line_start, lemma_same_line, line_end, line_start};
use crate::motion::{down_target, up_target, Motion};
use crate::state::EditorState;
use crate::utf8::{
    lemma_boundary_range, lemma_floor_boundary, lemma_next_boundary,
    next_boundary, prev_boundary, NEWLINE,
};
use vstd::prelude::*;
use vstd::utf8::*;

verus! {

/// One character back and then one character forward brings the cursor back
/// to where it was, from every offset but the start of the text. The text
/// stays as it is.
pub proof fn lemma_left_then_right(s: EditorState)
    requires
        s.wf(),
        s.cursor > 0,
    ensures
        s.move_to(Motion::Left).move_to(Motion::Right).cursor == s.cursor,
        s.move_to(Motion::Left).move_to(Motion::Right).text == s.text,
{
    lemma_boundary_range(s.text, s.cursor);
    lemma_floor_boundary(s.text, s.cursor - 1);
    let back = prev_boundary(s.text, s.cursor);
    lemma_next_boundary(s.text, back);
}

/// One character forward and then one character back brings the cursor back
/// to where it was, from every offset but the end of the text.
pub proof fn lemma_right_then_left(s: EditorState)
    requires
        s.wf(),
        s.cursor < s.text.len(),
    ensures
        s.move_to(Motion::Right).move_to(Motion::Left).cursor == s.cursor,
        s.move_to(Motion::Right).move_to(Motion::Left).text == s.text,
{
    lemma_boundary_range(s.text, s.cursor);
    lemma_next_boundary(s.text, s.cursor);
    let ahead = next_boundary(s.text, s.cursor);
    lemma_floor_boundary(s.text, ahead - 1);
}

/// At the start of the text a step back leaves text and cursor alone, and so
/// does a step forward at the end of the text.
pub proof fn lemma_steps_stop_at_the_ends(s: EditorState)
    requires
        s.wf(),
    ensures
        s.cursor == 0 ==> s.move_to(Motion::Left) == s.clear_selection(),
        s.cursor == s.text.len() ==> s.move_to(Motion::Right) == s.clear_selection(),
{
}

/// One line up and then one line down brings the cursor back to where it
/// was, where the line above reaches as far as the cursor's column and holds
/// a character boundary at that column.
pub proof fn lemma_up_then_down(s: EditorState)
    requires
        s.wf(),
        line_start(s.text, s.cursor) > 0,
        s.cursor - line_start(s.text, s.cursor) <= line_start(s.text, s.cursor) - 1 - line_start(
            s.text,
            line_start(s.text, s.cursor) - 1,
        ),
        is_char_boundary(
            s.text,
            line_start(s.text, line_start(s.text, s.cursor) - 1) + s.cursor - line_start(
                s.text,
                s.cursor,
            ),
        ),
    ensures
        s.move_to(Motion::Up).move_to(Motion::Down).cursor == s.cursor,
        s.move_to(Motion::Up).move_to(Motion::Down).text == s.text,
{
    let text = s.text;
    let cursor = s.cursor;
    lemma_boundary_range(text, cursor);
    lemma_line_start(text, cursor);
    lemma_line_end(text, cursor);
    let start = line_start(text, cursor);
    let above_end = start - 1;
    let above_start = line_start(text, above_end);
    lemma_line_start(text, above_end);
    let column = cursor - start;
    let up = above_start + column;
    lemma_floor_boundary(text, up);
    assert(up_target(text, cursor) == up);
    lemma_same_line(text, above_start, up);
    lemma_same_line(text, up, above_end);
    lemma_line_start(text, above_start);
    assert(line_start(text, above_start) == above_start);
    assert(line_end(text, above_end) == above_end);
    lemma_same_line(text, start, cursor);
    assert(line_start(text, start) == start);
    lemma_line_end(text, start);
    lemma_floor_boundary(text, cursor);
    assert(down_target(text, up) == cursor);
}

/// Selecting everything and cutting leaves an empty text with the cursor at
/// offset 0, and hands out the whole text.
pub proof fn lemma_select_all_then_cut(s: EditorState)
    requires
        s.wf(),
    ensures
        s.select_all().cut().text == Seq::<u8>::empty(),
        s.select_all().cut().cursor == 0,
        s.select_all().selected_text() == s.text,
{
    let all = s.select_all();
    assert(all.selected_text() =~= s.text);
    if all.has_selection() {
        assert(all.cut().text =~= Seq::<u8>::empty());
    } else {
        assert(all.cut().text =~= Seq::<u8>::empty());
    }
}

/// Typing over a selection that spans the whole text leaves just what was
/// typed, with the cursor behind it.
pub proof fn lemma_typing_over_everything(s: EditorState, typed: Seq<u8>)
    requires
        s.wf(),
    ensures
        s.select_all().insert(typed).text == typed,
        s.select_all().insert(typed).cursor == typed.len(),
        s.select_all().insert(typed).anchor is None,
{
    let all = s.select_all();
    let cleared = all.replace_selection();
    assert(cleared.text =~= Seq::<u8>::empty());
    assert(cleared.cursor == 0);
    assert(cleared.splice(typed).text =~= typed);
}

/// Deleting to the beginning or to the end of the line removes no newline:
/// none stands among the bytes that go, and the cursor ends up at the start
/// of its line or stays where it is.
pub proof fn lemma_line_kill_spares_newlines(s: EditorState)
    requires
        s.wf(),
    ensures
        forall|j: int| line_start(s.text, s.cursor) <= j < s.cursor ==> s.text[j] != NEWLINE,
        forall|j: int| s.cursor <= j < line_end(s.text, s.cursor) ==> s.text[j] != NEWLINE,
        s.delete_to_beginning_of_line().cursor == line_start(s.text, s.cursor),
        s.delete_to_end_of_line().cursor == s.cursor,
        s.delete_to_beginning_of_line().text.len() == s.text.len() - (s.cursor - line_start(
            s.text,
            s.cursor,
        )),
        s.delete_to_end_of_line().text.len() == s.text.len() - (line_end(s.text, s.cursor)
            - s.cursor),
{
    lemma_boundary_range(s.text, s.cursor);
    lemma_line_start(s.text, s.cursor);
    lemma_line_end(s.text, s.cursor);
}

/// On an empty text every cell hits offset 0.
pub proof fn lemma_hit_on_empty_text(line: nat, column: nat)
    ensures
        hit_offset(Seq::<u8>::empty(), line, column) == 0,
{
    lemma_hit_offset(Seq::<u8>::empty(), line, column);
}

} // verus!
