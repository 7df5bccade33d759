//! Clock arithmetic. A point in time is its tick count since the clock started, at a million
//! ticks a second.
use vstd::prelude::*;

verus! {

/// The ticks from one point in time to a later one.
///
/// Calls the subtraction of `embassy_time::Instant`. It is taken on trust that an `Instant` made
/// by `from_ticks` holds that tick count, and that the difference of two of them, read by
/// `as_ticks`, is the difference of their counts. The subtraction panics when the second instant
/// is the later one, which the precondition rules out.
#[verifier::external_body]
pub(crate) fn ticks_between(later: u64, earlier: u64) -> (ticks: u64)
    requires
        earlier <= later,
    ensures
        ticks == later - earlier,
{
    (embassy_time::Instant::from_ticks(later) - embassy_time::Instant::from_ticks(
        earlier,
    )).as_ticks()
}

/// The milliseconds that a tick count amounts to.
///
/// Calls `embassy_time::Instant::as_millis`. It is taken on trust that it divides the tick count by
/// the ticks of a millisecond and rounds down; at a million ticks a second these are a thousand.
#[verifier::external_body]
pub(crate) fn millis_at(ticks: u64) -> (millis: u64)
    ensures
        millis == ticks / 1000,
{
    embassy_time::Instant::from_ticks(ticks).as_millis()
}

} // verus!
