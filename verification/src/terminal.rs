//! The control sequences that draw on the terminal, as the `termion` crate
//! writes them.

use crate::text::decimal;
use vstd::prelude::*;

verus! {

/// The two characters that introduce a control sequence.
pub open spec fn csi() -> Seq<char> {
    seq!['\u{1b}', '[']
}

/// The sequence that puts the cursor on column `col` of row `row`, both
/// counted from one.
pub open spec fn goto_text(col: u16, row: u16) -> Seq<char> {
    csi() + decimal(row as nat) + seq![';'] + decimal(col as nat) + seq!['H']
}

/// The sequence that clears the whole screen.
pub open spec fn clear_all_text() -> Seq<char> {
    csi() + seq!['2', 'J']
}

/// The sequence that shows the cursor as a steady bar.
pub open spec fn steady_bar_text() -> Seq<char> {
    csi() + seq!['6', ' ', 'q']
}

/// The sequence that shows the cursor as a steady block.
pub open spec fn steady_block_text() -> Seq<char> {
    csi() + seq!['2', ' ', 'q']
}

/// Trusted: what `termion::cursor::Goto(col, row)` displays as. Its
/// `Display` impl writes the introducer, the row and the column in decimal
/// with a semicolon between them, and `H`; it refuses the position (0, 0),
/// which the precondition leaves out.
#[verifier::external_body]
pub(crate) fn goto(col: u16, row: u16) -> (sequence: String)
    requires
        col != 0 || row != 0,
    ensures
        sequence@ == goto_text(col, row),
{
    format!("{}", termion::cursor::Goto(col, row))
}

/// Trusted: what `termion::clear::All` displays as: the introducer followed
/// by `2J`.
#[verifier::external_body]
pub(crate) fn clear_all() -> (sequence: String)
    ensures
        sequence@ == clear_all_text(),
{
    format!("{}", termion::clear::All)
}

/// Trusted: what `termion::cursor::SteadyBar` displays as: the introducer
/// followed by `6 q`.
#[verifier::external_body]
pub(crate) fn steady_bar() -> (sequence: String)
    ensures
        sequence@ == steady_bar_text(),
{
    format!("{}", termion::cursor::SteadyBar)
}

/// Trusted: what `termion::cursor::SteadyBlock` displays as: the introducer
/// followed by `2 q`.
#[verifier::external_body]
pub(crate) fn steady_block() -> (sequence: String)
    ensures
        sequence@ == steady_block_text(),
{
    format!("{}", termion::cursor::SteadyBlock)
}

} // verus!
