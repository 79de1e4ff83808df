//! The wall clock behind the draw-rate gate. The machine throttles the draw
//! instruction to the 60 Hz tick rate; only these two calls touch real time,
//! and nothing is promised of their results.

use vstd::prelude::*;

verus! {

#[verifier::external_type_specification]
#[verifier::external_body]
pub struct ExInstant(std::time::Instant);

/// Relies on `std::time::Instant::now`: an opaque timestamp of the moment
/// of the call.
#[verifier::external_body]
pub(crate) fn instant_now() -> std::time::Instant {
    std::time::Instant::now()
}

/// Relies on `std::time::Instant::elapsed` and `Duration::as_nanos`: whether
/// at least one 60 Hz tick interval of wall-clock time has passed since
/// `prev`. The result depends on the wall clock, so nothing is promised of
/// it; the draw instruction states what holds either way.
#[verifier::external_body]
pub(crate) fn tick_elapsed(prev: &std::time::Instant) -> bool {
    prev.elapsed().as_nanos() >= 16_666_666
}

} // verus!
