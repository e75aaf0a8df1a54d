//! The clock that times edits, read in whole milliseconds.

use std::time::{Duration, Instant};
use vstd::prelude::*;

verus! {

/// Trusted: makes `std::time::Instant` known to the verifier as an opaque
/// type. Nothing is claimed of its values.
#[verifier::external_type_specification]
#[verifier::external_body]
pub struct ExInstant(Instant);

/// Trusted: `std::time::Instant::now` returns. Nothing is claimed of the
/// instant it gives.
pub assume_specification[ Instant::now ]() -> (now: Instant);

/// Trusted: `std::time::Instant::elapsed` returns. Nothing is claimed of the
/// duration it gives, which depends on when it is called.
pub assume_specification[ Instant::elapsed ](origin: &Instant) -> (elapsed: Duration);

/// Trusted: `std::time::Duration::as_millis` returns. Nothing is claimed of
/// the number it gives.
pub assume_specification[ Duration::as_millis ](duration: &Duration) -> (millis: u128);

/// The whole milliseconds that have passed since `origin`, held at the
/// largest `u64` where more have passed. Two calls may differ: a caller can
/// rely on nothing but the type of the result.
pub(crate) fn millis_since(origin: &Instant) -> u64 {
    let elapsed = origin.elapsed();
    let millis: u128 = elapsed.as_millis();
    hold_millis(millis)
}

/// `millis` as a reading of the clock: itself where it fits into a `u64`,
/// and the largest `u64` where it does not.
pub open spec fn held_millis(millis: u128) -> u64 {
    if millis > u64::MAX {
        u64::MAX
    } else {
        millis as u64
    }
}

/// Turns a count of milliseconds into a reading of the clock, held at the
/// largest `u64` where the count is larger.
pub fn hold_millis(millis: u128) -> (reading: u64)
    ensures
        reading == held_millis(millis),
{
    if millis > u64::MAX as u128 {
        u64::MAX
    } else {
        millis as u64
    }
}

} // verus!
