//! The buffer as a mathematical value, and every operation on it as a
//! function from one such value to the next.

use crate::file::undo::{within_window, SnapshotView};
use crate::geometry::{column_of, line_index, visible_rows, CursorPos, TermSize, GUTTER_WIDTH};
use vstd::prelude::*;

verus! {

/// The state of one open file.
///
/// `scroll_offset` is the 1-based number of the first visible line. The
/// cursor's `row` counts from it, so the line under the cursor has the
/// 0-based index `scroll_offset + row - 2`.
pub struct Buffer {
    pub path: Seq<char>,
    pub lines: Seq<Seq<char>>,
    pub scroll_offset: int,
    pub cursor: CursorPos,
    pub modified: bool,
    pub undo_stack: Seq<SnapshotView>,
    pub redo_stack: Seq<SnapshotView>,
    pub last_edit_time: u64,
}

/// An operation that changes the content of a buffer.
pub enum Edit {
    InsertChar(char),
    InsertNewline,
    DeleteForward,
    DeleteBackward,
    DeleteUnderCursor,
}

/// An operation that moves the cursor or the viewport and leaves the
/// content alone.
pub enum Motion {
    Left,
    Right { stop_sooner: bool },
    Up,
    Down,
    ScrollUp,
    ScrollDown,
}

/// Any operation on a buffer. Edits, undo and redo carry the time at which
/// they are made.
pub enum Operation {
    Edit(Edit, u64),
    Motion(Motion),
    Undo(u64),
    Redo(u64),
    Save,
}

/// Whether `cursor` points at a position of `lines` when the first visible
/// line is line number `scroll_offset`: on an existing line, and between its
/// first character and the position just behind its last.
pub open spec fn cursor_valid(lines: Seq<Seq<char>>, scroll_offset: int, cursor: CursorPos) -> bool {
    &&& scroll_offset >= 1
    &&& cursor.row >= 1
    &&& line_index(scroll_offset, cursor.row as int) < lines.len()
    &&& GUTTER_WIDTH <= cursor.col
    &&& cursor.col <= GUTTER_WIDTH + lines[line_index(scroll_offset, cursor.row as int)].len()
}

/// Whether a snapshot can be restored: it holds a line, and its cursor is
/// not above the first row or inside the gutter.
pub open spec fn snapshot_valid(snapshot: SnapshotView) -> bool {
    &&& snapshot.content.len() >= 1
    &&& snapshot.cursor.row >= 1
    &&& snapshot.cursor.col >= GUTTER_WIDTH
}

impl Buffer {
    /// 0-based index of the line under the cursor.
    pub open spec fn line_index(self) -> int {
        line_index(self.scroll_offset, self.cursor.row as int)
    }

    /// The line under the cursor.
    pub open spec fn current_line(self) -> Seq<char> {
        self.lines[self.line_index()]
    }

    /// 0-based index in the current line of the character under the cursor.
    pub open spec fn char_index(self) -> int {
        self.cursor.col - GUTTER_WIDTH
    }

    /// The invariant of every buffer: it holds at least one line, the cursor
    /// points into it, and every stacked snapshot can be restored.
    pub open spec fn inv(self) -> bool {
        &&& self.lines.len() >= 1
        &&& cursor_valid(self.lines, self.scroll_offset, self.cursor)
        &&& forall|i: int| 0 <= i < self.undo_stack.len() ==> snapshot_valid(#[trigger] self.undo_stack[i])
        &&& forall|i: int| 0 <= i < self.redo_stack.len() ==> snapshot_valid(#[trigger] self.redo_stack[i])
    }

    /// Whether the cursor, now and in every stacked snapshot, is on a row
    /// that a terminal of size `term_size` shows.
    pub open spec fn fits(self, term_size: TermSize) -> bool {
        &&& self.cursor.row <= visible_rows(term_size)
        &&& forall|i: int|
            0 <= i < self.undo_stack.len() ==> (#[trigger] self.undo_stack[i]).cursor.row
                <= visible_rows(term_size)
        &&& forall|i: int|
            0 <= i < self.redo_stack.len() ==> (#[trigger] self.redo_stack[i]).cursor.row
                <= visible_rows(term_size)
    }

    /// The invariant, for a buffer shown on a terminal of size `term_size`.
    pub open spec fn wf(self, term_size: TermSize) -> bool {
        self.inv() && self.fits(term_size)
    }

    /// Whether `other` shows the same text in the same place: path, content,
    /// viewport and cursor agree.
    pub open spec fn same_text(self, other: Buffer) -> bool {
        &&& self.path == other.path
        &&& self.lines == other.lines
        &&& self.scroll_offset == other.scroll_offset
        &&& self.cursor == other.cursor
    }

    /// The buffer with its cursor at `row`, `col`.
    pub open spec fn with_cursor(self, row: u16, col: u16) -> Buffer {
        Buffer { cursor: CursorPos { row, col }, ..self }
    }

    /// The buffer with the cursor pulled back onto the current line where it
    /// stood beyond the position behind the last character.
    pub open spec fn clamp_col(self) -> Buffer {
        let limit = GUTTER_WIDTH + self.current_line().len();
        if self.cursor.col > limit {
            self.with_cursor(self.cursor.row, limit as u16)
        } else {
            self
        }
    }

    /// The buffer with scroll offset, row and column each held, in this
    /// order, to the range in which the cursor points into the content. A
    /// buffer whose cursor is valid is left as it is.
    pub open spec fn normalized(self) -> Buffer {
        let scroll_offset = if self.scroll_offset > self.lines.len() {
            self.lines.len() as int
        } else {
            self.scroll_offset
        };
        let rows_below = self.lines.len() - scroll_offset + 1;
        let row = if self.cursor.row > rows_below {
            rows_below as u16
        } else {
            self.cursor.row
        };
        Buffer { scroll_offset, ..self }.with_cursor(row, self.cursor.col).clamp_col()
    }

    // Navigation ------------------------------------------------------------

    /// One column to the left, unless the cursor is on the first character.
    pub open spec fn move_left(self) -> Buffer {
        if self.cursor.col > GUTTER_WIDTH {
            self.with_cursor(self.cursor.row, (self.cursor.col - 1) as u16)
        } else {
            self
        }
    }

    /// One column to the right, unless the cursor is on the last column of
    /// the terminal or at the end of the line. With `stop_sooner` the end of
    /// the line is its last character, without it the position behind it.
    pub open spec fn move_right(self, term_size: TermSize, stop_sooner: bool) -> Buffer {
        let reserve: int = if stop_sooner { 1 } else { 0 };
        if term_size.width > self.cursor.col && GUTTER_WIDTH + self.current_line().len()
            > self.cursor.col + reserve {
            self.with_cursor(self.cursor.row, (self.cursor.col + 1) as u16)
        } else {
            self
        }
    }

    /// The viewport one line up, unless it shows the first line already.
    pub open spec fn scroll_up(self) -> Buffer {
        if self.scroll_offset > 1 {
            Buffer { scroll_offset: self.scroll_offset - 1, ..self }.clamp_col()
        } else {
            self
        }
    }

    /// Whether the viewport can go one line down: after the scroll its last
    /// visible row still shows a line, so that nothing past the last line
    /// comes into view.
    pub open spec fn can_scroll_down(self, term_size: TermSize) -> bool {
        self.lines.len() >= self.scroll_offset + visible_rows(term_size)
    }

    /// The viewport one line down, unless that would show past the last
    /// line.
    pub open spec fn scroll_down(self, term_size: TermSize) -> Buffer {
        if self.can_scroll_down(term_size) {
            Buffer { scroll_offset: self.scroll_offset + 1, ..self }.clamp_col()
        } else {
            self
        }
    }

    /// One row up; on the first row the viewport scrolls up instead.
    pub open spec fn move_up(self) -> Buffer {
        if self.cursor.row > 1 {
            self.with_cursor((self.cursor.row - 1) as u16, self.cursor.col).clamp_col()
        } else {
            self.scroll_up()
        }
    }

    /// One row down; on the last visible row, or on the last line, the
    /// viewport scrolls down instead. Either way the cursor comes onto the
    /// next line, and stays where it is on the last line.
    pub open spec fn move_down(self, term_size: TermSize) -> Buffer {
        if term_size.height > self.cursor.row + 1 && self.lines.len() > self.line_index() + 1 {
            self.with_cursor((self.cursor.row + 1) as u16, self.cursor.col).clamp_col()
        } else {
            self.scroll_down(term_size)
        }
    }

    /// The buffer after `motion`.
    pub open spec fn moved(self, term_size: TermSize, motion: Motion) -> Buffer {
        match motion {
            Motion::Left => self.move_left(),
            Motion::Right { stop_sooner } => self.move_right(term_size, stop_sooner),
            Motion::Up => self.move_up(),
            Motion::Down => self.move_down(term_size),
            Motion::ScrollUp => self.scroll_up(),
            Motion::ScrollDown => self.scroll_down(term_size),
        }
    }

    /// The buffer after the motions of `motions`, first to last.
    pub open spec fn moved_all(self, term_size: TermSize, motions: Seq<Motion>) -> Buffer
        decreases motions.len(),
    {
        if motions.len() == 0 {
            self
        } else {
            self.moved_all(term_size, motions.drop_last()).moved(term_size, motions.last())
        }
    }

    /// The viewport scrolled up `count` times.
    pub open spec fn scrolled_up(self, count: nat) -> Buffer
        decreases count,
    {
        if count == 0 {
            self
        } else {
            self.scrolled_up((count - 1) as nat).scroll_up()
        }
    }

    /// The viewport scrolled down `count` times.
    pub open spec fn scrolled_down(self, term_size: TermSize, count: nat) -> Buffer
        decreases count,
    {
        if count == 0 {
            self
        } else {
            self.scrolled_down(term_size, (count - 1) as nat).scroll_down(term_size)
        }
    }

    // Undo engine -----------------------------------------------------------

    /// The snapshot that an edit at `now` captures.
    pub open spec fn snapshot(self, now: u64) -> SnapshotView {
        SnapshotView { content: self.lines, cursor: self.cursor, timestamp: now }
    }

    /// Whether an edit at `now` captures a snapshot: it does unless it falls
    /// into the burst of the last captured edit.
    pub open spec fn captures(self, now: u64) -> bool {
        self.undo_stack.len() == 0 || !within_window(self.last_edit_time, now)
    }

    /// Whether `after` holds the history that an edit of this buffer at
    /// `now` leaves. Where the edit captures, the state of before lies on
    /// top of the undo stack, the redo stack is empty and the burst begins
    /// at `now`. Where it falls into the running burst, undo stack, redo
    /// stack and the beginning of the burst are as before.
    pub open spec fn history_stepped(self, after: Buffer, now: u64) -> bool {
        if self.captures(now) {
            &&& after.undo_stack == self.undo_stack.push(self.snapshot(now))
            &&& after.redo_stack == Seq::<SnapshotView>::empty()
            &&& after.last_edit_time == now
        } else {
            &&& after.undo_stack == self.undo_stack
            &&& after.redo_stack == self.redo_stack
            &&& after.last_edit_time == self.last_edit_time
        }
    }

    /// The snapshot hook: where an edit at `now` captures, the present state
    /// goes onto the undo stack, the redo stack is emptied and the burst
    /// begins anew.
    pub open spec fn capture(self, now: u64) -> Buffer {
        if self.captures(now) {
            Buffer {
                undo_stack: self.undo_stack.push(self.snapshot(now)),
                redo_stack: Seq::empty(),
                last_edit_time: now,
                ..self
            }
        } else {
            self
        }
    }

    /// What every edit begins with: the snapshot hook, then the buffer
    /// counts as modified.
    pub open spec fn begin_edit(self, now: u64) -> Buffer {
        Buffer { modified: true, ..self.capture(now) }
    }

    /// The top of the undo stack restored, and the present state put onto
    /// the redo stack. Nothing happens on an empty undo stack.
    pub open spec fn undo(self, now: u64) -> Buffer {
        if self.undo_stack.len() == 0 {
            self
        } else {
            let restored = self.undo_stack.last();
            Buffer {
                lines: restored.content,
                cursor: restored.cursor,
                undo_stack: self.undo_stack.drop_last(),
                redo_stack: self.redo_stack.push(self.snapshot(now)),
                ..self
            }.normalized()
        }
    }

    /// The top of the redo stack restored, and the present state put onto
    /// the undo stack. Nothing happens on an empty redo stack.
    pub open spec fn redo(self, now: u64) -> Buffer {
        if self.redo_stack.len() == 0 {
            self
        } else {
            let restored = self.redo_stack.last();
            Buffer {
                lines: restored.content,
                cursor: restored.cursor,
                undo_stack: self.undo_stack.push(self.snapshot(now)),
                redo_stack: self.redo_stack.drop_last(),
                ..self
            }.normalized()
        }
    }

    // Content changes ------------------------------------------------------

    /// `c` put in front of the character under the cursor; the cursor then
    /// moves right as far as the terminal allows.
    pub open spec fn put_char(self, term_size: TermSize, c: char) -> Buffer {
        let index = self.line_index();
        let line = self.lines[index].insert(self.char_index(), c);
        Buffer { lines: self.lines.update(index, line), ..self }.move_right(term_size, false)
    }

    /// The current line split in front of the character under the cursor.
    /// The cursor goes to the start of the new line: one row down, or on the
    /// last visible row with the viewport scrolled down by one line.
    pub open spec fn put_newline(self, term_size: TermSize) -> Buffer {
        let index = self.line_index();
        let line = self.lines[index];
        let at = self.char_index();
        let lines = self.lines.update(index, line.take(at)).insert(index + 1, line.skip(at));
        if term_size.height > self.cursor.row + 1 {
            Buffer { lines, ..self }.with_cursor((self.cursor.row + 1) as u16, GUTTER_WIDTH)
        } else {
            Buffer { lines, scroll_offset: self.scroll_offset + 1, ..self }.with_cursor(
                self.cursor.row,
                GUTTER_WIDTH,
            )
        }
    }

    /// The character under the cursor removed. Nothing is removed where the
    /// cursor stands behind the last character of the line.
    pub open spec fn cut_under_cursor(self) -> Buffer {
        let index = self.line_index();
        let at = self.char_index();
        if at < self.lines[index].len() {
            Buffer { lines: self.lines.update(index, self.lines[index].remove(at)), ..self }
        } else {
            self
        }
    }

    /// Behind the last character of a line, the next line is appended to it;
    /// on the last line nothing is removed. Elsewhere the character under
    /// the cursor is removed.
    pub open spec fn cut_forward(self) -> Buffer {
        let index = self.line_index();
        if self.char_index() == self.lines[index].len() {
            if index + 1 < self.lines.len() {
                let joined = self.lines[index] + self.lines[index + 1];
                Buffer { lines: self.lines.update(index, joined).remove(index + 1), ..self }
            } else {
                self
            }
        } else {
            self.cut_under_cursor()
        }
    }

    /// On the first character of a line, the line is appended to the one
    /// above and the cursor goes to where the two meet: one row up, or on
    /// the first row with the viewport scrolled up by one line. On the first
    /// line of the buffer nothing is removed. Elsewhere the cursor moves
    /// left and the character then under it is removed.
    pub open spec fn cut_backward(self) -> Buffer {
        let index = self.line_index();
        if self.cursor.col == GUTTER_WIDTH {
            if index == 0 {
                self
            } else {
                let above = self.lines[index - 1];
                let lines = self.lines.update(index - 1, above + self.lines[index]).remove(index);
                let col = column_of(above.len() as int);
                if self.cursor.row > 1 {
                    Buffer { lines, ..self }.with_cursor((self.cursor.row - 1) as u16, col)
                } else {
                    Buffer { lines, scroll_offset: self.scroll_offset - 1, ..self }.with_cursor(
                        self.cursor.row,
                        col,
                    )
                }
            }
        } else {
            self.move_left().cut_forward()
        }
    }

    /// The content change that `edit` makes.
    pub open spec fn changed(self, term_size: TermSize, edit: Edit) -> Buffer {
        match edit {
            Edit::InsertChar(c) => self.put_char(term_size, c),
            Edit::InsertNewline => self.put_newline(term_size),
            Edit::DeleteForward => self.cut_forward(),
            Edit::DeleteBackward => self.cut_backward(),
            Edit::DeleteUnderCursor => self.cut_under_cursor(),
        }
    }

    // Edits -----------------------------------------------------------------
    //
    // An edit is the snapshot hook at the time of the edit, followed by a
    // content change. The time decides what becomes of the undo history and
    // nothing else.

    /// The buffer after `edit`, made at `now`.
    pub open spec fn edited(self, term_size: TermSize, edit: Edit, now: u64) -> Buffer {
        self.begin_edit(now).changed(term_size, edit)
    }

    /// The buffer after `c` was typed at `now`.
    pub open spec fn insert_char(self, term_size: TermSize, c: char, now: u64) -> Buffer {
        self.begin_edit(now).put_char(term_size, c)
    }

    /// The buffer after a line break was typed at `now`.
    pub open spec fn insert_newline(self, term_size: TermSize, now: u64) -> Buffer {
        self.begin_edit(now).put_newline(term_size)
    }

    /// The buffer after the character under the cursor was deleted at `now`.
    pub open spec fn delete_under_cursor(self, now: u64) -> Buffer {
        self.begin_edit(now).cut_under_cursor()
    }

    /// The buffer after a forward delete at `now`.
    pub open spec fn delete_forward(self, now: u64) -> Buffer {
        self.begin_edit(now).cut_forward()
    }

    /// The buffer after a backward delete at `now`.
    pub open spec fn delete_backward(self, now: u64) -> Buffer {
        self.begin_edit(now).cut_backward()
    }

    /// The buffer after the edits of `edits`, first to last, the edit at
    /// index `i` made at `times[i]`.
    pub open spec fn edited_all(self, term_size: TermSize, edits: Seq<Edit>, times: Seq<u64>) -> Buffer
        decreases edits.len(),
    {
        if edits.len() == 0 {
            self
        } else {
            self.edited_all(term_size, edits.drop_last(), times).edited(
                term_size,
                edits.last(),
                times[edits.len() - 1],
            )
        }
    }

    /// The buffer after `count` blanks were typed at `now`.
    pub open spec fn with_blanks(self, term_size: TermSize, count: nat, now: u64) -> Buffer
        decreases count,
    {
        if count == 0 {
            self
        } else {
            self.with_blanks(term_size, (count - 1) as nat, now).insert_char(term_size, ' ', now)
        }
    }

    /// A fresh buffer on `lines`: the first line on the first row, the
    /// cursor on its first character, nothing modified and no history. A
    /// file without lines is opened as one empty line.
    pub open spec fn initial(path: Seq<char>, lines: Seq<Seq<char>>) -> Buffer {
        Buffer {
            path,
            lines: if lines.len() == 0 {
                seq![Seq::<char>::empty()]
            } else {
                lines
            },
            scroll_offset: 1,
            cursor: CursorPos { row: 1, col: GUTTER_WIDTH },
            modified: false,
            undo_stack: Seq::empty(),
            redo_stack: Seq::empty(),
            last_edit_time: 0,
        }
    }

    /// The buffer after a successful save.
    pub open spec fn saved(self) -> Buffer {
        Buffer { modified: false, ..self }
    }

    /// The buffer after `operation`.
    pub open spec fn applied(self, term_size: TermSize, operation: Operation) -> Buffer {
        match operation {
            Operation::Edit(edit, now) => self.edited(term_size, edit, now),
            Operation::Motion(motion) => self.moved(term_size, motion),
            Operation::Undo(now) => self.undo(now),
            Operation::Redo(now) => self.redo(now),
            Operation::Save => self.saved(),
        }
    }

    /// The buffer after the operations of `operations`, first to last.
    pub open spec fn applied_all(self, term_size: TermSize, operations: Seq<Operation>) -> Buffer
        decreases operations.len(),
    {
        if operations.len() == 0 {
            self
        } else {
            self.applied_all(term_size, operations.drop_last()).applied(term_size, operations.last())
        }
    }
}

} // verus!
