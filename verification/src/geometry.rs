//! Viewport geometry: the mapping between screen coordinates and positions
//! in the buffer, given a fixed left gutter and a terminal size.

use vstd::prelude::*;

verus! {

/// First screen column (1-based) that shows text; the columns to its left
/// hold the line-number label.
pub const GUTTER_WIDTH: u16 = 6;

/// Cursor position on the screen.
///
/// `row` is 1-based and relative to the viewport. `col` is the 1-based screen
/// column, so a cursor on the first character of a line has
/// `col == GUTTER_WIDTH`.
#[derive(Debug, Clone, Copy, PartialEq, Eq, Structural)]
pub struct CursorPos {
    pub row: u16,
    pub col: u16,
}

/// Size of the terminal in character cells.
#[derive(Debug, Clone, Copy, PartialEq, Eq, Structural)]
pub struct TermSize {
    pub width: u16,
    pub height: u16,
}

/// Number of rows that show text; the last row of the terminal holds the
/// status line.
pub open spec fn visible_rows(term_size: TermSize) -> int {
    if term_size.height >= 1 {
        term_size.height - 1
    } else {
        0
    }
}

/// 0-based index into the buffer of the line under a cursor at `row`, when
/// the first visible line is line number `scroll_offset` (1-based).
pub open spec fn line_index(scroll_offset: int, row: int) -> int {
    scroll_offset + row - 2
}

/// 0-based index into a line of the character under a cursor at `col`.
pub open spec fn char_index(col: int) -> int {
    col - GUTTER_WIDTH
}

/// Screen column of the character at index `index` of a line, held at the
/// largest representable column where the line is longer than the screen
/// can address.
pub open spec fn column_of(index: int) -> u16 {
    if GUTTER_WIDTH + index <= u16::MAX {
        (GUTTER_WIDTH + index) as u16
    } else {
        u16::MAX
    }
}

/// Number of characters of a line that fit to the right of the gutter.
pub open spec fn text_columns(term_size: TermSize) -> int {
    if term_size.width >= GUTTER_WIDTH {
        term_size.width - GUTTER_WIDTH
    } else {
        0
    }
}

/// `value` held to the range `[low, high]`.
pub open spec fn clamp(value: int, low: int, high: int) -> int {
    if value < low {
        low
    } else if value > high {
        high
    } else {
        value
    }
}

pub fn visible_row_count(term_size: TermSize) -> (rows: u16)
    ensures
        rows == visible_rows(term_size),
{
    if term_size.height >= 1 {
        term_size.height - 1
    } else {
        0
    }
}

/// Total on all inputs: an index that would fall outside `usize` is held at
/// the nearest end of its range.
pub fn absolute_line_index(scroll_offset: usize, row: u16) -> (index: usize)
    ensures
        index == clamp(line_index(scroll_offset as int, row as int), 0, usize::MAX as int),
{
    let row: usize = row as usize;
    if scroll_offset >= 2 {
        let base: usize = scroll_offset - 2;
        if row <= usize::MAX - base {
            base + row
        } else {
            usize::MAX
        }
    } else if scroll_offset + row >= 2 {
        scroll_offset + row - 2
    } else {
        0
    }
}

/// Total on all inputs: a column inside the gutter maps to index 0.
pub fn column_to_char_index(col: u16) -> (index: usize)
    ensures
        index == clamp(char_index(col as int), 0, u16::MAX as int),
{
    if col >= GUTTER_WIDTH {
        (col - GUTTER_WIDTH) as usize
    } else {
        0
    }
}

pub fn char_index_to_column(index: usize) -> (col: u16)
    ensures
        col == column_of(index as int),
        col >= GUTTER_WIDTH,
{
    if index <= (u16::MAX - GUTTER_WIDTH) as usize {
        index as u16 + GUTTER_WIDTH
    } else {
        u16::MAX
    }
}

pub fn text_width(term_size: TermSize) -> (width: usize)
    ensures
        width == text_columns(term_size),
{
    if term_size.width >= GUTTER_WIDTH {
        (term_size.width - GUTTER_WIDTH) as usize
    } else {
        0
    }
}

} // verus!
