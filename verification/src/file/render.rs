//! What a buffer looks like on the terminal: the rows of text with their
//! line numbers, the status line, and the place of the cursor.

use crate::file::model::Buffer;
use crate::geometry::{text_columns, visible_rows, CursorPos, TermSize, GUTTER_WIDTH};
use crate::terminal::goto_text;
use crate::text::{decimal, right_aligned, truncated};
use vstd::prelude::*;

verus! {

/// Width of the line-number label, which a bar parts from the text.
pub const LABEL_WIDTH: usize = 4;

/// The rows of `rows` as they are written to the terminal, each followed by
/// a carriage return and a line feed.
pub open spec fn rows_text(rows: Seq<Seq<char>>) -> Seq<char>
    decreases rows.len(),
{
    if rows.len() == 0 {
        Seq::<char>::empty()
    } else {
        rows_text(rows.drop_last()) + rows.last() + seq!['\r', '\n']
    }
}

impl Buffer {
    /// Number of rows that show a line: all visible rows, or fewer where the
    /// content ends above the last of them.
    pub open spec fn shown_rows(self, term_size: TermSize) -> int {
        let below = self.lines.len() - self.scroll_offset + 1;
        if visible_rows(term_size) <= below {
            visible_rows(term_size)
        } else {
            below
        }
    }

    /// The row with index `k`, counted from zero at the top: the number of
    /// its line, right-aligned, a bar, and as much of the line as fits to
    /// the right of the gutter.
    pub open spec fn row_text(self, term_size: TermSize, k: int) -> Seq<char> {
        right_aligned(decimal((self.scroll_offset + k) as nat), LABEL_WIDTH as nat) + seq!['|']
            + truncated(self.lines[self.scroll_offset - 1 + k], text_columns(term_size))
    }

    /// The rows that show a line, top first.
    pub open spec fn rows(self, term_size: TermSize) -> Seq<Seq<char>> {
        Seq::new(self.shown_rows(term_size) as nat, |k: int| self.row_text(term_size, k))
    }

    /// Where the terminal shows the cursor: the cursor itself, pulled back
    /// onto its line where it stood beyond the position behind the last
    /// character.
    pub open spec fn screen_cursor(self) -> CursorPos {
        self.clamp_col().cursor
    }

    /// The word that tells whether the content was changed since it was
    /// last saved.
    pub open spec fn modified_text(self) -> Seq<char> {
        if self.modified {
            "Modified"@
        } else {
            "Saved"@
        }
    }

    /// The status line: path, column in the line and row, both counted from
    /// one, whether the content was changed, and the name of the mode.
    pub open spec fn status_text(self, mode: Seq<char>) -> Seq<char> {
        self.path + " | col: "@ + decimal((self.screen_cursor().col - GUTTER_WIDTH + 1) as nat)
            + ", row: "@ + decimal(self.cursor.row as nat) + " | "@ + self.modified_text() + " | "@
            + mode + " "@
    }

    /// All that is written to draw the buffer: the rows, then the status
    /// line on the last row of the terminal.
    pub open spec fn frame_text(self, term_size: TermSize, mode: Seq<char>) -> Seq<char> {
        rows_text(self.rows(term_size)) + goto_text(1, term_size.height) + self.status_text(mode)
    }

    /// What is written to put the cursor where it belongs.
    pub open spec fn cursor_text(self) -> Seq<char> {
        goto_text(self.screen_cursor().col, self.screen_cursor().row)
    }
}

} // verus!
