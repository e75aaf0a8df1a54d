//! What holds of the buffer model: every operation keeps the invariant, and
//! undo, redo and the capture policy relate as the undo history promises.

use crate::file::model::{cursor_valid, Buffer, Edit, Motion, Operation};
use crate::file::undo::{within_window, SnapshotView};
use crate::geometry::{visible_rows, TermSize, GUTTER_WIDTH};
use crate::text::{
    free_of_breaks, join_lines, lemma_join_split, lemma_split_free_of_breaks, lemma_split_join,
    lemma_split_nonempty, split_lines,
};
use vstd::prelude::*;

verus! {

/// Every motion keeps the invariant and leaves content, flag and history as
/// they were. All but `Down` keep the cursor on its row, so on a visible row
/// of whatever terminal showed it before.
pub proof fn lemma_moved_inv(b: Buffer, term_size: TermSize, motion: Motion)
    requires
        b.inv(),
        motion is Down || motion is ScrollDown ==> b.fits(term_size),
    ensures
        b.moved(term_size, motion).inv(),
        b.fits(term_size) ==> b.moved(term_size, motion).fits(term_size),
        !(motion is Down) ==> forall|any_size: TermSize|
            b.fits(any_size) ==> #[trigger] b.moved(term_size, motion).fits(any_size),
        b.moved(term_size, motion).lines == b.lines,
        b.moved(term_size, motion).modified == b.modified,
        b.moved(term_size, motion).undo_stack == b.undo_stack,
        b.moved(term_size, motion).redo_stack == b.redo_stack,
        b.moved(term_size, motion).last_edit_time == b.last_edit_time,
        b.moved(term_size, motion).path == b.path,
{
}

/// Every motion keeps the invariant of a buffer shown on a terminal of
/// size `term_size`.
pub proof fn lemma_moved_wf(b: Buffer, term_size: TermSize, motion: Motion)
    requires
        b.wf(term_size),
    ensures
        b.moved(term_size, motion).wf(term_size),
        b.moved(term_size, motion).lines == b.lines,
        b.moved(term_size, motion).modified == b.modified,
        b.moved(term_size, motion).undo_stack == b.undo_stack,
        b.moved(term_size, motion).redo_stack == b.redo_stack,
        b.moved(term_size, motion).last_edit_time == b.last_edit_time,
        b.moved(term_size, motion).path == b.path,
{
    lemma_moved_inv(b, term_size, motion);
}

/// Moving down brings the cursor onto the next line, by a step down or by
/// a scroll, and leaves it where it is on the last line. So every line can
/// be reached from every other.
pub proof fn lemma_move_down_reaches_next_line(b: Buffer, term_size: TermSize)
    requires
        b.wf(term_size),
    ensures
        b.line_index() + 1 < b.lines.len() ==> b.move_down(term_size).line_index() == b.line_index()
            + 1,
        b.line_index() + 1 == b.lines.len() ==> b.move_down(term_size).line_index()
            == b.line_index(),
        b.move_down(term_size).lines == b.lines,
{
}

/// Scrolling down never shows past the last line: where the last visible
/// row showed a line before, it shows one after. It scrolls whenever a line
/// lies below the last visible row.
pub proof fn lemma_scroll_down_stops_at_last_line(b: Buffer, term_size: TermSize)
    requires
        b.wf(term_size),
    ensures
        b.scroll_offset + visible_rows(term_size) - 1 <= b.lines.len() ==> b.scroll_down(
            term_size,
        ).scroll_offset + visible_rows(term_size) - 1 <= b.lines.len(),
        b.lines.len() >= b.scroll_offset + visible_rows(term_size) ==> b.scroll_down(
            term_size,
        ).scroll_offset == b.scroll_offset + 1,
        b.lines.len() < b.scroll_offset + visible_rows(term_size) ==> b.scroll_down(term_size)
            == b,
{
}

/// After any sequence of motions the cursor is on a visible row and on a
/// position of the line it points at: the row lies in
/// `[1, visible_rows]`, the column in `[GUTTER_WIDTH, GUTTER_WIDTH + n]`
/// for a current line of `n` characters. The content is untouched.
pub proof fn lemma_motions_keep_cursor_in_bounds(b: Buffer, term_size: TermSize, motions: Seq<Motion>)
    requires
        b.wf(term_size),
    ensures
        b.moved_all(term_size, motions).wf(term_size),
        b.moved_all(term_size, motions).lines == b.lines,
        b.moved_all(term_size, motions).modified == b.modified,
        b.moved_all(term_size, motions).undo_stack == b.undo_stack,
        b.moved_all(term_size, motions).redo_stack == b.redo_stack,
        ({
            let after = b.moved_all(term_size, motions);
            &&& 1 <= after.cursor.row <= visible_rows(term_size)
            &&& 0 <= after.line_index() < after.lines.len()
            &&& GUTTER_WIDTH <= after.cursor.col <= GUTTER_WIDTH + after.current_line().len()
        }),
    decreases motions.len(),
{
    if motions.len() > 0 {
        lemma_motions_keep_cursor_in_bounds(b, term_size, motions.drop_last());
        lemma_moved_wf(b.moved_all(term_size, motions.drop_last()), term_size, motions.last());
    }
}

/// Scrolling up any number of times keeps the invariant.
pub proof fn lemma_scrolled_up_wf(b: Buffer, term_size: TermSize, count: nat)
    requires
        b.wf(term_size),
    ensures
        b.scrolled_up(count).wf(term_size),
    decreases count,
{
    if count > 0 {
        lemma_scrolled_up_wf(b, term_size, (count - 1) as nat);
        lemma_moved_wf(b.scrolled_up((count - 1) as nat), term_size, Motion::ScrollUp);
    }
}

/// Scrolling down any number of times keeps the invariant.
pub proof fn lemma_scrolled_down_wf(b: Buffer, term_size: TermSize, count: nat)
    requires
        b.wf(term_size),
    ensures
        b.scrolled_down(term_size, count).wf(term_size),
    decreases count,
{
    if count > 0 {
        lemma_scrolled_down_wf(b, term_size, (count - 1) as nat);
        lemma_moved_wf(b.scrolled_down(term_size, (count - 1) as nat), term_size, Motion::ScrollDown);
    }
}

/// The snapshot hook keeps the invariant and leaves content, cursor and
/// viewport alone.
pub proof fn lemma_capture_wf(b: Buffer, now: u64)
    requires
        b.inv(),
    ensures
        b.capture(now).inv(),
        b.begin_edit(now).inv(),
        forall|term_size: TermSize| b.fits(term_size) ==> #[trigger] b.begin_edit(now).fits(term_size),
        b.begin_edit(now).lines == b.lines,
        b.begin_edit(now).cursor == b.cursor,
        b.begin_edit(now).scroll_offset == b.scroll_offset,
{
}

/// A character put into the current line leaves the cursor valid where it
/// stands.
pub(crate) proof fn lemma_widened_line_inv(b: Buffer, c: char)
    requires
        b.inv(),
    ensures
        (Buffer {
            lines: b.lines.update(b.line_index(), b.current_line().insert(b.char_index(), c)),
            ..b
        }).inv(),
{
}

/// Every content change keeps the invariant and leaves the history alone.
/// All but a line break keep the cursor on or above its row, so on a
/// visible row of whatever terminal showed it before.
pub proof fn lemma_changed_inv(b: Buffer, term_size: TermSize, edit: Edit)
    requires
        b.inv(),
    ensures
        b.changed(term_size, edit).inv(),
        b.fits(term_size) ==> b.changed(term_size, edit).fits(term_size),
        !(edit is InsertNewline) ==> forall|any_size: TermSize|
            b.fits(any_size) ==> #[trigger] b.changed(term_size, edit).fits(any_size),
        b.changed(term_size, edit).modified == b.modified,
        b.changed(term_size, edit).undo_stack == b.undo_stack,
        b.changed(term_size, edit).redo_stack == b.redo_stack,
        b.changed(term_size, edit).last_edit_time == b.last_edit_time,
        b.changed(term_size, edit).path == b.path,
{
}

/// Every edit keeps the invariant, whenever it is made; in particular the
/// buffer never runs out of lines. All but a line break keep the cursor on
/// a visible row of whatever terminal showed it before.
pub proof fn lemma_edited_inv(b: Buffer, term_size: TermSize, edit: Edit, now: u64)
    requires
        b.inv(),
    ensures
        b.edited(term_size, edit, now).inv(),
        b.edited(term_size, edit, now).lines.len() >= 1,
        b.fits(term_size) ==> b.edited(term_size, edit, now).fits(term_size),
        !(edit is InsertNewline) ==> forall|any_size: TermSize|
            b.fits(any_size) ==> #[trigger] b.edited(term_size, edit, now).fits(any_size),
        b.edited(term_size, edit, now).modified,
        b.edited(term_size, edit, now).undo_stack == b.capture(now).undo_stack,
        b.edited(term_size, edit, now).redo_stack == b.capture(now).redo_stack,
        b.edited(term_size, edit, now).last_edit_time == b.capture(now).last_edit_time,
        b.edited(term_size, edit, now).path == b.path,
{
    lemma_capture_wf(b, now);
    lemma_changed_inv(b.begin_edit(now), term_size, edit);
}

/// Recording a save keeps the invariant.
pub proof fn lemma_saved_inv(b: Buffer)
    requires
        b.inv(),
    ensures
        b.saved().inv(),
        forall|term_size: TermSize| b.fits(term_size) ==> #[trigger] b.saved().fits(term_size),
{
}

/// Undo and redo keep the invariant and the cursor on a visible row.
pub proof fn lemma_undo_redo_wf(b: Buffer, now: u64)
    requires
        b.inv(),
    ensures
        b.undo(now).inv(),
        b.redo(now).inv(),
        forall|term_size: TermSize| b.fits(term_size) ==> #[trigger] b.undo(now).fits(term_size),
        forall|term_size: TermSize| b.fits(term_size) ==> #[trigger] b.redo(now).fits(term_size),
{
}

/// Whatever is done to a buffer, in whatever order and at whatever times,
/// it holds at least one line afterwards, and its cursor is on a visible row
/// and on a position of the line it points at.
pub proof fn lemma_operations_keep_invariant(
    b: Buffer,
    term_size: TermSize,
    operations: Seq<Operation>,
)
    requires
        b.wf(term_size),
    ensures
        b.applied_all(term_size, operations).wf(term_size),
        ({
            let after = b.applied_all(term_size, operations);
            &&& after.lines.len() >= 1
            &&& 1 <= after.cursor.row <= visible_rows(term_size)
            &&& 0 <= after.line_index() < after.lines.len()
            &&& GUTTER_WIDTH <= after.cursor.col <= GUTTER_WIDTH + after.current_line().len()
        }),
    decreases operations.len(),
{
    if operations.len() > 0 {
        lemma_operations_keep_invariant(b, term_size, operations.drop_last());
        let before = b.applied_all(term_size, operations.drop_last());
        match operations.last() {
            Operation::Edit(edit, now) => lemma_edited_inv(before, term_size, edit, now),
            Operation::Motion(motion) => lemma_moved_inv(before, term_size, motion),
            Operation::Undo(now) => lemma_undo_redo_wf(before, now),
            Operation::Redo(now) => lemma_undo_redo_wf(before, now),
            Operation::Save => lemma_saved_inv(before),
        }
    }
}

/// Saving and opening again gives the same lines in the same order: the
/// lines of what a save writes are the lines of the buffer, provided that
/// no line of the buffer holds a line break.
pub proof fn lemma_save_then_open_keeps_lines(b: Buffer)
    requires
        b.inv(),
        free_of_breaks(b.lines),
    ensures
        split_lines(join_lines(b.lines)) == b.lines,
        Buffer::initial(b.path, split_lines(join_lines(b.lines))).lines == b.lines,
{
    lemma_split_join(b.lines);
}

/// Opening and saving again gives the same text, whatever it holds. No line
/// of a file just opened holds a line break, so that such a file, saved and
/// opened once more, has the same lines.
pub proof fn lemma_open_then_save_keeps_text(path: Seq<char>, text: Seq<char>)
    ensures
        join_lines(Buffer::initial(path, split_lines(text)).lines) == text,
        free_of_breaks(Buffer::initial(path, split_lines(text)).lines),
        Buffer::initial(path, split_lines(text)).inv(),
{
    lemma_split_nonempty(text);
    lemma_join_split(text);
    lemma_split_free_of_breaks(text);
}

/// Undo after one edit that captured a snapshot restores the content as it
/// was before the edit. It restores the cursor too, wherever the cursor of
/// before still points into that content under the viewport that the edit
/// left; that is so whenever the edit did not scroll. The undo stack is as
/// before the edit, and the edited state lies on the redo stack.
pub proof fn lemma_undo_restores_prior(
    b: Buffer,
    term_size: TermSize,
    edit: Edit,
    now: u64,
    later: u64,
)
    requires
        b.inv(),
        b.captures(now),
    ensures
        ({
            let edited = b.edited(term_size, edit, now);
            let undone = edited.undo(later);
            &&& undone.lines == b.lines
            &&& undone.undo_stack == b.undo_stack
            &&& undone.redo_stack == seq![edited.snapshot(later)]
            &&& cursor_valid(b.lines, edited.scroll_offset, b.cursor) ==> undone.cursor == b.cursor
                && undone.scroll_offset == edited.scroll_offset
            &&& edited.scroll_offset == b.scroll_offset ==> undone.same_text(b)
        }),
{
    lemma_edited_inv(b, term_size, edit, now);
    let edited = b.edited(term_size, edit, now);
    assert(edited.undo_stack.last() == b.snapshot(now));
    assert(edited.undo_stack.drop_last() =~= b.undo_stack);
    assert(edited.undo(later).redo_stack =~= seq![edited.snapshot(later)]);
}

/// Redo after that undo restores the content that the edit had made, and
/// under the same condition as for undo the cursor and viewport too.
pub proof fn lemma_redo_restores_edit(
    b: Buffer,
    term_size: TermSize,
    edit: Edit,
    now: u64,
    later: u64,
    last: u64,
)
    requires
        b.inv(),
        b.captures(now),
    ensures
        ({
            let edited = b.edited(term_size, edit, now);
            let redone = edited.undo(later).redo(last);
            &&& redone.lines == edited.lines
            &&& redone.redo_stack == Seq::<SnapshotView>::empty()
            &&& cursor_valid(b.lines, edited.scroll_offset, b.cursor) ==> redone.same_text(edited)
                && redone.modified == edited.modified
        }),
{
    lemma_undo_restores_prior(b, term_size, edit, now, later);
    lemma_edited_inv(b, term_size, edit, now);
    let edited = b.edited(term_size, edit, now);
    let undone = edited.undo(later);
    assert(undone.redo_stack.last() == edited.snapshot(later));
    assert(undone.redo_stack.drop_last() =~= Seq::<SnapshotView>::empty());
}

/// An edit that captures a snapshot empties the redo stack, so that redo
/// does nothing after it. This holds of the first edit after an undo, unless
/// that edit falls into the burst of an earlier edit still on the undo
/// stack.
pub proof fn lemma_captured_edit_clears_redo(
    b: Buffer,
    term_size: TermSize,
    edit: Edit,
    now: u64,
    later: u64,
)
    requires
        b.captures(now),
    ensures
        b.edited(term_size, edit, now).redo_stack == Seq::<SnapshotView>::empty(),
        b.edited(term_size, edit, now).redo(later) == b.edited(term_size, edit, now),
{
}

/// The capture policy, one edit at a time. An edit captures a snapshot of
/// the state before it exactly if the undo stack is empty or the burst of
/// the last captured edit is over. An edit that falls into a running burst
/// leaves undo stack, redo stack and the beginning of the burst as they
/// are, so that one undo after it goes back to where one undo before it
/// went: to the state before the burst.
pub proof fn lemma_edit_steps_history(
    b: Buffer,
    term_size: TermSize,
    edit: Edit,
    now: u64,
    later: u64,
)
    requires
        b.inv(),
    ensures
        b.captures(now) <==> b.undo_stack.len() == 0 || !within_window(b.last_edit_time, now),
        b.history_stepped(b.capture(now), now),
        b.history_stepped(b.edited(term_size, edit, now), now),
        b.capture(now).lines == b.lines,
        b.capture(now).cursor == b.cursor,
        b.capture(now).modified == b.modified,
        !b.captures(now) ==> b.capture(now) == b,
        !b.captures(now) ==> b.edited(term_size, edit, now).undo(later).lines == b.undo(later).lines,
{
    lemma_edited_inv(b, term_size, edit, now);
}

/// Edits that follow a captured edit within the debounce window are one
/// undo step with it: after any number of them the undo stack holds one
/// snapshot more than before the first, and that snapshot is the state
/// before the first. One undo then restores the content of before the
/// whole burst, and the cursor wherever it still points into that content.
pub proof fn lemma_burst_is_one_undo_step(
    b: Buffer,
    term_size: TermSize,
    edits: Seq<Edit>,
    times: Seq<u64>,
    later: u64,
)
    requires
        b.inv(),
        edits.len() >= 1,
        times.len() == edits.len(),
        b.captures(times[0]),
        forall|k: int| 1 <= k < times.len() ==> within_window(times[0], #[trigger] times[k]),
    ensures
        ({
            let burst = b.edited_all(term_size, edits, times);
            let undone = burst.undo(later);
            &&& burst.inv()
            &&& burst.undo_stack == b.undo_stack.push(b.snapshot(times[0]))
            &&& burst.redo_stack == Seq::<SnapshotView>::empty()
            &&& burst.last_edit_time == times[0]
            &&& undone.lines == b.lines
            &&& undone.undo_stack == b.undo_stack
            &&& cursor_valid(b.lines, burst.scroll_offset, b.cursor) ==> undone.cursor == b.cursor
        }),
    decreases edits.len(),
{
    let burst = b.edited_all(term_size, edits, times);
    if edits.len() == 1 {
        assert(b.edited_all(term_size, edits.drop_last(), times) == b);
        assert(burst == b.edited(term_size, edits.last(), times[0]));
        lemma_edited_inv(b, term_size, edits.last(), times[0]);
    } else {
        let head = edits.drop_last();
        let head_times = times.drop_last();
        lemma_edited_all_ignores_later_times(b, term_size, head, times, head_times);
        lemma_burst_is_one_undo_step(b, term_size, head, head_times, later);
        let before = b.edited_all(term_size, head, times);
        let at = times[edits.len() - 1];
        assert(within_window(times[0], at));
        assert(!before.captures(at));
        lemma_edited_inv(before, term_size, edits.last(), at);
    }
    assert(burst.undo_stack.last() == b.snapshot(times[0]));
    assert(burst.undo_stack.drop_last() =~= b.undo_stack);
}

/// A sequence of edits reads one time for each edit and no more.
proof fn lemma_edited_all_ignores_later_times(
    b: Buffer,
    term_size: TermSize,
    edits: Seq<Edit>,
    times: Seq<u64>,
    other: Seq<u64>,
)
    requires
        forall|k: int| 0 <= k < edits.len() ==> times[k] == other[k],
    ensures
        b.edited_all(term_size, edits, times) == b.edited_all(term_size, edits, other),
    decreases edits.len(),
{
    if edits.len() > 0 {
        lemma_edited_all_ignores_later_times(b, term_size, edits.drop_last(), times, other);
    }
}

} // verus!
