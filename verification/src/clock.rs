//! Wall-clock readings for the timing fields of the result records.

use vstd::prelude::*;

verus! {

/// `std::time::Instant`, declared so that a clock reading can pass through
/// verified code; values of it are opaque here.
#[verifier::external_type_specification]
#[verifier::external_body]
pub struct ExInstant(std::time::Instant);

/// Relies on `std::time::Instant::now`. What the clock reads depends on the
/// machine and the moment, so nothing is promised of the value.
#[verifier::external_body]
pub(crate) fn clock_now() -> std::time::Instant {
    std::time::Instant::now()
}

/// Relies on `std::time::Instant::elapsed`, taken in whole milliseconds. The
/// reading depends on the clock, so nothing is promised of the value.
#[verifier::external_body]
pub(crate) fn clock_elapsed_ms(start: &std::time::Instant) -> u64 {
    start.elapsed().as_millis() as u64
}

} // verus!
