//! Snapshots of a buffer and the policy that decides when one is captured.

use crate::geometry::CursorPos;
use crate::text::text_of;
use vstd::prelude::*;

verus! {

/// Edits that follow a captured snapshot by less than this many milliseconds
/// belong to the same undo step.
pub const DEBOUNCE_MS: u64 = 500;

/// A copy of a buffer's content and cursor, captured at `timestamp`
/// (milliseconds on the buffer's clock).
#[derive(Debug)]
pub struct Snapshot {
    pub content: Vec<Vec<char>>,
    pub cursor: CursorPos,
    pub timestamp: u64,
}

/// What a `Snapshot` holds, as mathematical values.
pub struct SnapshotView {
    pub content: Seq<Seq<char>>,
    pub cursor: CursorPos,
    pub timestamp: u64,
}

impl View for Snapshot {
    type V = SnapshotView;

    open spec fn view(&self) -> SnapshotView {
        SnapshotView {
            content: text_of(self.content@),
            cursor: self.cursor,
            timestamp: self.timestamp,
        }
    }
}

/// What a stack of snapshots holds, bottom first.
pub open spec fn stack_view(stack: Seq<Snapshot>) -> Seq<SnapshotView> {
    Seq::new(stack.len(), |i: int| stack[i]@)
}

/// Milliseconds from `last` to `now`; zero where the clock reads earlier
/// than `last`.
pub open spec fn elapsed_between(last: u64, now: u64) -> int {
    if now >= last {
        now - last
    } else {
        0
    }
}

/// Whether an edit at `now` falls into the burst that began at `last`.
pub open spec fn within_window(last: u64, now: u64) -> bool {
    elapsed_between(last, now) < DEBOUNCE_MS
}

/// Whether an edit at `now` falls into the burst that began at `last`.
pub fn in_debounce_window(last: u64, now: u64) -> (within: bool)
    ensures
        within == within_window(last, now),
{
    if now >= last {
        now - last < DEBOUNCE_MS
    } else {
        true
    }
}

} // verus!
