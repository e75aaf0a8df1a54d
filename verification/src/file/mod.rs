//! An open file: its lines, the cursor and viewport on them, and its undo
//! history.

pub mod laws;
pub mod model;
pub mod render;
pub mod undo;

pub use crate::geometry::{CursorPos, TermSize};
pub use undo::Snapshot;

use crate::clock::millis_since;
use crate::file::laws::{
    lemma_capture_wf, lemma_edited_inv, lemma_move_down_reaches_next_line, lemma_moved_inv,
    lemma_saved_inv, lemma_undo_redo_wf, lemma_widened_line_inv,
};
use crate::file::model::{Buffer, Edit, Motion};
use crate::file::render::{rows_text, LABEL_WIDTH};
use crate::file::undo::{in_debounce_window, stack_view};
use crate::geometry::{
    absolute_line_index, char_index_to_column, column_to_char_index, text_width, visible_row_count,
    GUTTER_WIDTH,
};
use crate::terminal::goto;
use crate::text::{
    clone_lines, join_lines, join_text, lines_of_strings, push_chars, push_decimal,
    push_right_aligned, push_str, push_truncated, split_lines, split_text, string_of,
    strings_of_lines, strings_view, text_of,
};
use std::time::Instant;
use vstd::prelude::*;

verus! {

/// One file held in memory for editing.
///
/// Lines are stored without their line breaks. The file always holds at
/// least one line: an empty document is one empty line.
#[derive(Debug)]
pub struct OpenFile {
    path: String,
    lines: Vec<Vec<char>>,
    line_no: usize,
    cursor: CursorPos,
    modified: bool,
    undo_stack: Vec<Snapshot>,
    redo_stack: Vec<Snapshot>,
    last_edit_time: u64,
    clock: Instant,
}

impl View for OpenFile {
    type V = Buffer;

    closed spec fn view(&self) -> Buffer {
        Buffer {
            path: self.path@,
            lines: text_of(self.lines@),
            scroll_offset: self.line_no as int,
            cursor: self.cursor,
            modified: self.modified,
            undo_stack: stack_view(self.undo_stack@),
            redo_stack: stack_view(self.redo_stack@),
            last_edit_time: self.last_edit_time,
        }
    }
}

impl OpenFile {
    /// The invariant that every constructor establishes and every method
    /// keeps.
    pub open spec fn inv(&self) -> bool {
        self@.inv()
    }

    /// The invariant, for a file shown on a terminal of size `term_size`.
    pub open spec fn wf(&self, term_size: TermSize) -> bool {
        self@.wf(term_size)
    }

    fn with_lines(path: String, lines: Vec<Vec<char>>) -> (file: OpenFile)
        ensures
            file@ == Buffer::initial(path@, text_of(lines@)),
            file.inv(),
    {
        let mut lines = lines;
        if lines.len() == 0 {
            lines.push(Vec::new());
            assert(text_of(lines@) =~= seq![Seq::<char>::empty()]);
        }
        let file = OpenFile {
            path,
            lines,
            line_no: 1,
            cursor: CursorPos { row: 1, col: GUTTER_WIDTH },
            modified: false,
            undo_stack: Vec::new(),
            redo_stack: Vec::new(),
            last_edit_time: 0,
            clock: Instant::now(),
        };
        assert(file@.undo_stack =~= Seq::empty());
        assert(file@.redo_stack =~= Seq::empty());
        file
    }

    /// Opens `lines` as the content of the file at `path`.
    pub fn new(path: String, lines: Vec<String>) -> (file: OpenFile)
        ensures
            file@ == Buffer::initial(path@, strings_view(lines@)),
            file.inv(),
            forall|term_size: TermSize| term_size.height >= 2 ==> #[trigger] file.wf(term_size),
    {
        let chars = lines_of_strings(&lines);
        assert(text_of(chars@) =~= strings_view(lines@));
        OpenFile::with_lines(path, chars)
    }

    /// Opens `text`, split at its line breaks, as the content of the file at
    /// `path`.
    pub fn from_text(path: String, text: &str) -> (file: OpenFile)
        ensures
            file@ == Buffer::initial(path@, split_lines(text@)),
            file@.lines == split_lines(text@),
            file.inv(),
            forall|term_size: TermSize| term_size.height >= 2 ==> #[trigger] file.wf(term_size),
    {
        proof {
            crate::text::lemma_split_nonempty(text@);
        }
        OpenFile::with_lines(path, split_text(text))
    }

    // Navigation ------------------------------------------------------------

    fn line_index(&self) -> (index: usize)
        requires
            self.inv(),
        ensures
            index == self@.line_index(),
            index < self.lines@.len(),
    {
        assert(text_of(self.lines@).len() == self.lines.len());
        absolute_line_index(self.line_no, self.cursor.row)
    }

    fn char_index(&self) -> (index: usize)
        requires
            self.inv(),
        ensures
            index == self@.char_index(),
            index <= self@.current_line().len(),
    {
        column_to_char_index(self.cursor.col)
    }

    fn get_line_len(&self) -> (len: usize)
        requires
            self.inv(),
        ensures
            len == self@.current_line().len(),
    {
        let index = self.line_index();
        self.lines[index].len()
    }

    fn clamp_col(&mut self)
        requires
            old(self).line_no >= 1,
            old(self).cursor.row >= 1,
            old(self)@.line_index() < old(self).lines@.len(),
        ensures
            final(self)@ == old(self)@.clamp_col(),
    {
        assert(text_of(self.lines@).len() == self.lines.len());
        let index = absolute_line_index(self.line_no, self.cursor.row);
        let len = self.lines[index].len();
        if len < (u16::MAX - GUTTER_WIDTH) as usize && self.cursor.col > GUTTER_WIDTH + len as u16 {
            self.cursor.col = GUTTER_WIDTH + len as u16;
        }
    }

    fn normalize(&mut self)
        requires
            old(self).lines@.len() >= 1,
            old(self).line_no >= 1,
            old(self).cursor.row >= 1,
        ensures
            final(self)@ == old(self)@.normalized(),
    {
        if self.line_no > self.lines.len() {
            self.line_no = self.lines.len();
        }
        let rows_below = self.lines.len() - self.line_no + 1;
        if self.cursor.row as usize > rows_below {
            self.cursor.row = rows_below as u16;
        }
        self.clamp_col();
    }

    /// Moves the cursor one column to the left, unless it is on the first
    /// character of its line.
    pub fn move_left(&mut self)
        requires
            old(self).inv(),
        ensures
            final(self)@ == old(self)@.move_left(),
            final(self).inv(),
            forall|term_size: TermSize| old(self).wf(term_size) ==> #[trigger] final(self).wf(term_size),
    {
        if self.cursor.col > GUTTER_WIDTH {
            self.cursor.col -= 1;
        }
        proof {
            lemma_moved_inv(old(self)@, TermSize { width: 0, height: 0 }, Motion::Left);
        }
    }

    /// Moves the cursor one column to the right, unless it is on the last
    /// column of the terminal or at the end of its line. With `stop_sooner`
    /// the end of the line is its last character, without it the position
    /// behind the last character.
    pub fn move_right(&mut self, term_size: TermSize, stop_sooner: bool)
        requires
            old(self).inv(),
        ensures
            final(self)@ == old(self)@.move_right(term_size, stop_sooner),
            final(self).inv(),
            forall|any_size: TermSize| old(self).wf(any_size) ==> #[trigger] final(self).wf(any_size),
    {
        let len = self.get_line_len();
        let col = self.cursor.col as usize;
        let reserve: usize = if stop_sooner { 1 } else { 0 };
        if term_size.width > self.cursor.col && len > col + reserve - GUTTER_WIDTH as usize {
            self.cursor.col += 1;
        }
        proof {
            lemma_moved_inv(old(self)@, term_size, Motion::Right { stop_sooner });
        }
    }

    /// Scrolls the viewport one line up, unless it shows the first line
    /// already, and keeps the cursor on the line that comes under it.
    pub fn scroll_up(&mut self)
        requires
            old(self).inv(),
        ensures
            final(self)@ == old(self)@.scroll_up(),
            final(self).inv(),
            forall|term_size: TermSize| old(self).wf(term_size) ==> #[trigger] final(self).wf(term_size),
    {
        if self.line_no > 1 {
            self.line_no -= 1;
            self.clamp_col();
        }
        proof {
            lemma_moved_inv(old(self)@, TermSize { width: 0, height: 0 }, Motion::ScrollUp);
        }
    }

    /// Scrolls the viewport one line down, unless that would show past the
    /// last line, and keeps the cursor on the line that comes under it. The
    /// viewport goes down as long as a line lies below its last row.
    pub fn scroll_down(&mut self, term_size: TermSize)
        requires
            old(self).wf(term_size),
        ensures
            final(self)@ == old(self)@.scroll_down(term_size),
            final(self)@.scroll_offset == if old(self)@.can_scroll_down(term_size) {
                old(self)@.scroll_offset + 1
            } else {
                old(self)@.scroll_offset
            },
            final(self)@.lines == old(self)@.lines,
            final(self).wf(term_size),
    {
        assert(text_of(self.lines@).len() == self.lines.len());
        if self.lines.len() - self.line_no + 1 > visible_row_count(term_size) as usize {
            self.line_no += 1;
            self.clamp_col();
        }
        proof {
            lemma_moved_inv(old(self)@, term_size, Motion::ScrollDown);
        }
    }

    /// Moves the cursor one row up; on the first row the viewport scrolls up
    /// instead.
    pub fn move_up(&mut self)
        requires
            old(self).inv(),
        ensures
            final(self)@ == old(self)@.move_up(),
            final(self).inv(),
            forall|term_size: TermSize| old(self).wf(term_size) ==> #[trigger] final(self).wf(term_size),
    {
        if self.cursor.row > 1 {
            self.cursor.row -= 1;
            self.clamp_col();
        } else {
            self.scroll_up();
        }
        proof {
            lemma_moved_inv(old(self)@, TermSize { width: 0, height: 0 }, Motion::Up);
        }
    }

    /// Moves the cursor one row down; on the last visible row the viewport
    /// scrolls down instead. Either way the cursor comes onto the next line;
    /// on the last line it stays where it is.
    pub fn move_down(&mut self, term_size: TermSize)
        requires
            old(self).wf(term_size),
        ensures
            final(self)@ == old(self)@.move_down(term_size),
            final(self)@.line_index() == if old(self)@.line_index() + 1 < old(self)@.lines.len() {
                old(self)@.line_index() + 1
            } else {
                old(self)@.line_index()
            },
            final(self)@.lines == old(self)@.lines,
            final(self).wf(term_size),
    {
        let index = self.line_index();
        if term_size.height > self.cursor.row + 1 && self.lines.len() > index + 1 {
            self.cursor.row += 1;
            self.clamp_col();
        } else {
            self.scroll_down(term_size);
        }
        proof {
            lemma_moved_inv(old(self)@, term_size, Motion::Down);
            lemma_move_down_reaches_next_line(old(self)@, term_size);
        }
    }

    // Content changes ------------------------------------------------------

    fn put_char(&mut self, term_size: TermSize, c: char)
        requires
            old(self).inv(),
        ensures
            final(self)@ == old(self)@.put_char(term_size, c),
    {
        let index = self.line_index();
        let at = self.char_index();
        self.lines[index].insert(at, c);
        proof {
            let before = old(self)@;
            let line = before.lines[index as int].insert(at as int, c);
            assert(text_of(self.lines@) =~= before.lines.update(index as int, line));
            lemma_widened_line_inv(before, c);
        }
        self.move_right(term_size, false);
    }

    fn put_newline(&mut self, term_size: TermSize)
        requires
            old(self).inv(),
        ensures
            final(self)@ == old(self)@.put_newline(term_size),
    {
        let index = self.line_index();
        let at = self.char_index();
        let rest = self.lines[index].split_off(at);
        assert(index + 1 <= self.lines.len());
        self.lines.insert(index + 1, rest);
        assert(self.line_no < self.lines.len());
        proof {
            let before = old(self)@;
            let line = before.lines[index as int];
            assert(text_of(self.lines@) =~= before.lines.update(index as int, line.take(at as int)).insert(
                index + 1,
                line.skip(at as int),
            ));
        }
        if term_size.height > 1 && self.cursor.row < term_size.height - 1 {
            self.cursor.row += 1;
        } else {
            self.line_no += 1;
        }
        self.cursor.col = GUTTER_WIDTH;
    }

    fn cut_under_cursor(&mut self)
        requires
            old(self).inv(),
        ensures
            final(self)@ == old(self)@.cut_under_cursor(),
    {
        let index = self.line_index();
        let at = self.char_index();
        if at < self.lines[index].len() {
            self.lines[index].remove(at);
            proof {
                let before = old(self)@;
                let line = before.lines[index as int].remove(at as int);
                assert(text_of(self.lines@) =~= before.lines.update(index as int, line));
            }
        }
    }

    fn cut_forward(&mut self)
        requires
            old(self).inv(),
        ensures
            final(self)@ == old(self)@.cut_forward(),
    {
        let index = self.line_index();
        let at = self.char_index();
        let count = self.lines.len();
        if at == self.lines[index].len() {
            if index + 1 < count {
                let mut next = self.lines.remove(index + 1);
                self.lines[index].append(&mut next);
                proof {
                    let before = old(self)@;
                    let joined = before.lines[index as int] + before.lines[index + 1];
                    assert(text_of(self.lines@) =~= before.lines.update(index as int, joined).remove(
                        index + 1,
                    ));
                }
            }
        } else {
            self.cut_under_cursor();
        }
    }

    fn cut_backward(&mut self)
        requires
            old(self).inv(),
        ensures
            final(self)@ == old(self)@.cut_backward(),
    {
        let index = self.line_index();
        if self.cursor.col == GUTTER_WIDTH {
            if index > 0 {
                let meet = self.lines[index - 1].len();
                let mut current = self.lines.remove(index);
                self.lines[index - 1].append(&mut current);
                proof {
                    let before = old(self)@;
                    let joined = before.lines[index - 1] + before.lines[index as int];
                    assert(text_of(self.lines@) =~= before.lines.update(index - 1, joined).remove(
                        index as int,
                    ));
                }
                self.cursor.col = char_index_to_column(meet);
                if self.cursor.row > 1 {
                    self.cursor.row -= 1;
                } else {
                    self.line_no -= 1;
                }
            }
        } else {
            self.move_left();
            self.cut_forward();
        }
    }

    // Undo engine -----------------------------------------------------------

    /// The reading of this file's clock, in milliseconds since it was
    /// opened. Two calls may differ.
    pub(crate) fn clock_millis(&self) -> u64 {
        millis_since(&self.clock)
    }

    /// The snapshot hook of an edit made at `now`. In a running burst, that
    /// is with a snapshot on the undo stack and less than the debounce
    /// window since the last capture, nothing is captured and nothing
    /// changes. Else the present content and cursor go onto the undo stack,
    /// the redo stack is emptied and a burst begins at `now`.
    fn take_snapshot(&mut self, now: u64)
        ensures
            final(self)@ == old(self)@.capture(now),
            old(self)@.history_stepped(final(self)@, now),
            !old(self)@.captures(now) ==> final(self)@ == old(self)@,
            final(self)@.lines == old(self)@.lines,
            final(self)@.cursor == old(self)@.cursor,
            final(self)@.scroll_offset == old(self)@.scroll_offset,
            final(self)@.modified == old(self)@.modified,
    {
        if self.undo_stack.len() > 0 && in_debounce_window(self.last_edit_time, now) {
            return ;
        }
        let snapshot = Snapshot { content: clone_lines(&self.lines), cursor: self.cursor, timestamp: now };
        self.undo_stack.push(snapshot);
        self.redo_stack.clear();
        self.last_edit_time = now;
        proof {
            let before = old(self)@;
            assert(stack_view(self.undo_stack@) =~= before.undo_stack.push(before.snapshot(now)));
            assert(stack_view(self.redo_stack@) =~= Seq::empty());
        }
    }

    fn begin_edit(&mut self, now: u64)
        ensures
            final(self)@ == old(self)@.begin_edit(now),
    {
        self.take_snapshot(now);
        self.modified = true;
    }

    // Edits -----------------------------------------------------------------
    //
    // Each edit comes twice: under its plain name it reads the file's clock,
    // and with `_at` it takes the time of the edit from the caller.

    /// Types `c` in front of the character under the cursor, at `now`.
    pub fn handle_char_input_at(&mut self, term_size: TermSize, c: char, now: u64)
        requires
            old(self).inv(),
        ensures
            final(self)@ == old(self)@.insert_char(term_size, c, now),
            old(self)@.history_stepped(final(self)@, now),
            final(self).inv(),
            forall|any_size: TermSize| old(self).wf(any_size) ==> #[trigger] final(self).wf(any_size),
    {
        proof {
            lemma_capture_wf(old(self)@, now);
            lemma_edited_inv(old(self)@, term_size, Edit::InsertChar(c), now);
        }
        self.begin_edit(now);
        self.put_char(term_size, c);
    }

    /// Types `c` in front of the character under the cursor. Whether the
    /// edit starts a new undo step depends on the clock.
    pub fn handle_char_input(&mut self, term_size: TermSize, c: char)
        requires
            old(self).inv(),
        ensures
            exists|now: u64| final(self)@ == old(self)@.insert_char(term_size, c, now),
            final(self)@.same_text(old(self)@.put_char(term_size, c)),
            final(self)@.modified,
            final(self).inv(),
            forall|any_size: TermSize| old(self).wf(any_size) ==> #[trigger] final(self).wf(any_size),
    {
        let now = self.clock_millis();
        self.handle_char_input_at(term_size, c, now);
    }

    /// Breaks the current line in front of the character under the cursor,
    /// at `now`.
    pub fn handle_enter_at(&mut self, term_size: TermSize, now: u64)
        requires
            old(self).inv(),
        ensures
            final(self)@ == old(self)@.insert_newline(term_size, now),
            old(self)@.history_stepped(final(self)@, now),
            final(self).inv(),
            old(self).wf(term_size) ==> final(self).wf(term_size),
    {
        proof {
            lemma_capture_wf(old(self)@, now);
            lemma_edited_inv(old(self)@, term_size, Edit::InsertNewline, now);
        }
        self.begin_edit(now);
        self.put_newline(term_size);
    }

    /// Breaks the current line in front of the character under the cursor.
    /// Whether the edit starts a new undo step depends on the clock.
    pub fn handle_enter(&mut self, term_size: TermSize)
        requires
            old(self).inv(),
        ensures
            exists|now: u64| final(self)@ == old(self)@.insert_newline(term_size, now),
            final(self)@.same_text(old(self)@.put_newline(term_size)),
            final(self)@.modified,
            final(self).inv(),
            old(self).wf(term_size) ==> final(self).wf(term_size),
    {
        let now = self.clock_millis();
        self.handle_enter_at(term_size, now);
    }

    /// Deletes forward at `now`: the character under the cursor, or behind
    /// the last character of a line the line break that follows.
    pub fn handle_delete_at(&mut self, now: u64)
        requires
            old(self).inv(),
        ensures
            final(self)@ == old(self)@.delete_forward(now),
            old(self)@.history_stepped(final(self)@, now),
            final(self).inv(),
            forall|term_size: TermSize| old(self).wf(term_size) ==> #[trigger] final(self).wf(term_size),
    {
        proof {
            lemma_capture_wf(old(self)@, now);
            lemma_edited_inv(old(self)@, TermSize { width: 0, height: 0 }, Edit::DeleteForward, now);
        }
        self.begin_edit(now);
        self.cut_forward();
    }

    /// Deletes forward: the character under the cursor, or behind the last
    /// character of a line the line break that follows. Whether the edit
    /// starts a new undo step depends on the clock.
    pub fn handle_delete(&mut self)
        requires
            old(self).inv(),
        ensures
            exists|now: u64| final(self)@ == old(self)@.delete_forward(now),
            final(self)@.same_text(old(self)@.cut_forward()),
            final(self)@.modified,
            final(self).inv(),
            forall|term_size: TermSize| old(self).wf(term_size) ==> #[trigger] final(self).wf(term_size),
    {
        let now = self.clock_millis();
        self.handle_delete_at(now);
    }

    /// Deletes backward at `now`: the character in front of the cursor, or
    /// on the first character of a line the line break in front of it.
    pub fn handle_backspace_at(&mut self, now: u64)
        requires
            old(self).inv(),
        ensures
            final(self)@ == old(self)@.delete_backward(now),
            old(self)@.history_stepped(final(self)@, now),
            final(self).inv(),
            forall|term_size: TermSize| old(self).wf(term_size) ==> #[trigger] final(self).wf(term_size),
    {
        proof {
            lemma_capture_wf(old(self)@, now);
            lemma_edited_inv(old(self)@, TermSize { width: 0, height: 0 }, Edit::DeleteBackward, now);
        }
        self.begin_edit(now);
        self.cut_backward();
    }

    /// Deletes backward: the character in front of the cursor, or on the
    /// first character of a line the line break in front of it. Whether the
    /// edit starts a new undo step depends on the clock.
    pub fn handle_backspace(&mut self)
        requires
            old(self).inv(),
        ensures
            exists|now: u64| final(self)@ == old(self)@.delete_backward(now),
            final(self)@.same_text(old(self)@.cut_backward()),
            final(self)@.modified,
            final(self).inv(),
            forall|term_size: TermSize| old(self).wf(term_size) ==> #[trigger] final(self).wf(term_size),
    {
        let now = self.clock_millis();
        self.handle_backspace_at(now);
    }

    /// Deletes the character under the cursor, at `now`.
    pub fn delete_char_at_cursor_pos_at(&mut self, now: u64)
        requires
            old(self).inv(),
        ensures
            final(self)@ == old(self)@.delete_under_cursor(now),
            old(self)@.history_stepped(final(self)@, now),
            final(self).inv(),
            forall|term_size: TermSize| old(self).wf(term_size) ==> #[trigger] final(self).wf(term_size),
    {
        proof {
            lemma_capture_wf(old(self)@, now);
            lemma_edited_inv(old(self)@, TermSize { width: 0, height: 0 }, Edit::DeleteUnderCursor, now);
        }
        self.begin_edit(now);
        self.cut_under_cursor();
    }

    /// Deletes the character under the cursor. Whether the edit starts a
    /// new undo step depends on the clock.
    pub fn delete_char_at_cursor_pos(&mut self)
        requires
            old(self).inv(),
        ensures
            exists|now: u64| final(self)@ == old(self)@.delete_under_cursor(now),
            final(self)@.same_text(old(self)@.cut_under_cursor()),
            final(self)@.modified,
            final(self).inv(),
            forall|term_size: TermSize| old(self).wf(term_size) ==> #[trigger] final(self).wf(term_size),
    {
        let now = self.clock_millis();
        self.delete_char_at_cursor_pos_at(now);
    }

    /// Goes one step back in the history, at `now`: the content and cursor
    /// on top of the undo stack are restored and the present ones go onto
    /// the redo stack. Nothing happens on an empty undo stack.
    pub fn undo_at(&mut self, now: u64)
        requires
            old(self).inv(),
        ensures
            final(self)@ == old(self)@.undo(now),
            final(self).inv(),
            forall|term_size: TermSize| old(self).wf(term_size) ==> #[trigger] final(self).wf(term_size),
    {
        proof {
            lemma_undo_redo_wf(old(self)@, now);
        }
        if let Some(mut restored) = self.undo_stack.pop() {
            std::mem::swap(&mut self.lines, &mut restored.content);
            let cursor = restored.cursor;
            restored.cursor = self.cursor;
            restored.timestamp = now;
            self.redo_stack.push(restored);
            self.cursor = cursor;
            proof {
                let before = old(self)@;
                assert(stack_view(self.undo_stack@) =~= before.undo_stack.drop_last());
                assert(stack_view(self.redo_stack@) =~= before.redo_stack.push(before.snapshot(now)));
                assert(text_of(self.lines@) == before.undo_stack.last().content);
            }
            self.normalize();
        }
    }

    /// Goes one step back in the history. The time only stamps the
    /// snapshot that goes onto the redo stack.
    pub fn undo(&mut self)
        requires
            old(self).inv(),
        ensures
            exists|now: u64| final(self)@ == old(self)@.undo(now),
            forall|now: u64| final(self)@.same_text(#[trigger] old(self)@.undo(now)),
            final(self).inv(),
            forall|term_size: TermSize| old(self).wf(term_size) ==> #[trigger] final(self).wf(term_size),
    {
        let now = self.clock_millis();
        self.undo_at(now);
    }

    /// Goes one step forward in the history, at `now`: the content and
    /// cursor on top of the redo stack are restored and the present ones go
    /// onto the undo stack. Nothing happens on an empty redo stack.
    pub fn redo_at(&mut self, now: u64)
        requires
            old(self).inv(),
        ensures
            final(self)@ == old(self)@.redo(now),
            final(self).inv(),
            forall|term_size: TermSize| old(self).wf(term_size) ==> #[trigger] final(self).wf(term_size),
    {
        proof {
            lemma_undo_redo_wf(old(self)@, now);
        }
        if let Some(mut restored) = self.redo_stack.pop() {
            std::mem::swap(&mut self.lines, &mut restored.content);
            let cursor = restored.cursor;
            restored.cursor = self.cursor;
            restored.timestamp = now;
            self.undo_stack.push(restored);
            self.cursor = cursor;
            proof {
                let before = old(self)@;
                assert(stack_view(self.redo_stack@) =~= before.redo_stack.drop_last());
                assert(stack_view(self.undo_stack@) =~= before.undo_stack.push(before.snapshot(now)));
                assert(text_of(self.lines@) == before.redo_stack.last().content);
            }
            self.normalize();
        }
    }

    /// Goes one step forward in the history. The time only stamps the
    /// snapshot that goes onto the undo stack.
    pub fn redo(&mut self)
        requires
            old(self).inv(),
        ensures
            exists|now: u64| final(self)@ == old(self)@.redo(now),
            forall|now: u64| final(self)@.same_text(#[trigger] old(self)@.redo(now)),
            final(self).inv(),
            forall|term_size: TermSize| old(self).wf(term_size) ==> #[trigger] final(self).wf(term_size),
    {
        let now = self.clock_millis();
        self.redo_at(now);
    }

    // Reading ---------------------------------------------------------------

    /// The path of the file.
    pub fn path(&self) -> (path: &String)
        ensures
            path@ == self@.path,
    {
        &self.path
    }

    /// The lines of the file, each as a string.
    pub fn lines(&self) -> (lines: Vec<String>)
        ensures
            strings_view(lines@) == self@.lines,
    {
        let lines = strings_of_lines(&self.lines);
        assert(strings_view(lines@) =~= text_of(self.lines@));
        lines
    }

    /// The cursor.
    pub fn cursor(&self) -> (cursor: CursorPos)
        ensures
            cursor == self@.cursor,
    {
        self.cursor
    }

    /// The number of the first visible line, counted from one.
    pub fn scroll_offset(&self) -> (scroll_offset: usize)
        ensures
            scroll_offset == self@.scroll_offset,
    {
        self.line_no
    }

    /// Whether the content was changed since it was opened or last saved.
    pub fn is_modified(&self) -> (modified: bool)
        ensures
            modified == self@.modified,
    {
        self.modified
    }

    /// Number of steps that undo can go back.
    pub fn undo_depth(&self) -> (depth: usize)
        ensures
            depth == self@.undo_stack.len(),
    {
        self.undo_stack.len()
    }

    /// Number of steps that redo can go forward.
    pub fn redo_depth(&self) -> (depth: usize)
        ensures
            depth == self@.redo_stack.len(),
    {
        self.redo_stack.len()
    }

    // Saving ----------------------------------------------------------------

    /// What a save writes to the file: the lines with a line break between
    /// each two.
    pub fn contents(&self) -> (text: String)
        ensures
            text@ == join_lines(self@.lines),
    {
        join_text(&self.lines)
    }

    /// Records that the content was written to the file.
    pub fn mark_saved(&mut self)
        requires
            old(self).inv(),
        ensures
            final(self)@ == old(self)@.saved(),
            final(self).inv(),
            forall|term_size: TermSize| old(self).wf(term_size) ==> #[trigger] final(self).wf(term_size),
    {
        self.modified = false;
        proof {
            lemma_saved_inv(old(self)@);
        }
    }

    // Drawing ---------------------------------------------------------------

    /// Where the terminal shows the cursor.
    pub fn screen_cursor(&self) -> (cursor: CursorPos)
        requires
            self.inv(),
        ensures
            cursor == self@.screen_cursor(),
            cursor == self@.cursor,
    {
        self.cursor
    }

    fn push_row(&self, out: &mut Vec<char>, term_size: TermSize, k: usize)
        requires
            self.inv(),
            k < self@.shown_rows(term_size),
        ensures
            final(out)@ == old(out)@ + self@.row_text(term_size, k as int),
    {
        assert(text_of(self.lines@).len() == self.lines.len());
        let index = absolute_line_index(self.line_no, (k + 1) as u16);
        push_right_aligned(out, index + 1, LABEL_WIDTH);
        out.push('|');
        push_truncated(out, &self.lines[index], text_width(term_size));
        assert(out@ =~= old(out)@ + self@.row_text(term_size, k as int));
    }

    fn shown_rows(&self, term_size: TermSize) -> (rows: usize)
        requires
            self.inv(),
        ensures
            rows == self@.shown_rows(term_size),
    {
        let count = self.lines.len();
        assert(text_of(self.lines@).len() == count);
        let below = count - self.line_no + 1;
        let visible = visible_row_count(term_size) as usize;
        if visible <= below {
            visible
        } else {
            below
        }
    }

    /// The rows that show a line, top first: each the number of its line,
    /// a bar, and as much of the line as fits.
    pub fn render_rows(&self, term_size: TermSize) -> (rows: Vec<String>)
        requires
            self.inv(),
        ensures
            strings_view(rows@) == self@.rows(term_size),
    {
        let shown = self.shown_rows(term_size);
        let mut rows: Vec<String> = Vec::new();
        let mut k: usize = 0;
        while k < shown
            invariant
                self.inv(),
                shown == self@.shown_rows(term_size),
                k <= shown,
                rows@.len() == k,
                forall|j: int| 0 <= j < k ==> (#[trigger] rows@[j])@ == self@.row_text(term_size, j),
            decreases shown - k,
        {
            let mut row: Vec<char> = Vec::new();
            self.push_row(&mut row, term_size, k);
            rows.push(string_of(&row));
            k += 1;
        }
        assert(strings_view(rows@) =~= self@.rows(term_size));
        rows
    }

    fn push_status(&self, out: &mut Vec<char>, mode: &str)
        requires
            self.inv(),
        ensures
            final(out)@ == old(out)@ + self@.status_text(mode@),
    {
        push_chars(out, &chars_of_string(&self.path));
        push_str(out, " | col: ");
        push_decimal(out, self.char_index() + 1);
        push_str(out, ", row: ");
        push_decimal(out, self.cursor.row as usize);
        push_str(out, " | ");
        if self.modified {
            push_str(out, "Modified");
        } else {
            push_str(out, "Saved");
        }
        push_str(out, " | ");
        push_str(out, mode);
        push_str(out, " ");
        assert(out@ =~= old(out)@ + self@.status_text(mode@));
    }

    /// The status line: path, column and row of the cursor, whether the
    /// content was changed, and `mode`.
    pub fn status_line(&self, mode: &str) -> (status: String)
        requires
            self.inv(),
        ensures
            status@ == self@.status_text(mode@),
    {
        let mut out: Vec<char> = Vec::new();
        self.push_status(&mut out, mode);
        assert(out@ =~= self@.status_text(mode@));
        string_of(&out)
    }

    /// All that is to be written to draw the file on a terminal of size
    /// `term_size`: the rows that show a line, each ended by a carriage
    /// return and a line feed, then the status line on the last row.
    pub fn render(&self, term_size: TermSize, mode: String) -> (frame: String)
        requires
            self.inv(),
        ensures
            frame@ == self@.frame_text(term_size, mode@),
    {
        let shown = self.shown_rows(term_size);
        let mut out: Vec<char> = Vec::new();
        let mut k: usize = 0;
        while k < shown
            invariant
                self.inv(),
                shown == self@.shown_rows(term_size),
                k <= shown,
                out@ == rows_text(self@.rows(term_size).take(k as int)),
            decreases shown - k,
        {
            let ghost done = self@.rows(term_size).take(k as int);
            let ghost next = self@.rows(term_size).take(k + 1);
            assert(next.drop_last() =~= done);
            assert(next.last() == self@.row_text(term_size, k as int));
            self.push_row(&mut out, term_size, k);
            out.push('\r');
            out.push('\n');
            assert(out@ =~= rows_text(next));
            k += 1;
        }
        assert(self@.rows(term_size).take(shown as int) =~= self@.rows(term_size));
        let home = goto(1, term_size.height);
        push_str(&mut out, home.as_str());
        self.push_status(&mut out, mode.as_str());
        string_of(&out)
    }

    /// What is to be written to put the cursor of the terminal where the
    /// cursor of the file is.
    pub fn set_cursor(&self) -> (sequence: String)
        requires
            self.inv(),
        ensures
            sequence@ == self@.cursor_text(),
    {
        goto(self.cursor.col, self.cursor.row)
    }
}

fn chars_of_string(s: &String) -> (chars: Vec<char>)
    ensures
        chars@ == s@,
{
    crate::text::chars_of(s.as_str())
}

} // verus!
