//! The clock, behind two small trusted functions.

use vstd::prelude::*;

verus! {

#[verifier::external_type_specification]
#[verifier::external_body]
pub struct ExInstant(std::time::Instant);

/// The present moment.
///
/// Trusted: `std::time::Instant::now`. The result depends on the clock,
/// so nothing is stated of it.
#[verifier::external_body]
pub(crate) fn moment() -> std::time::Instant {
    std::time::Instant::now()
}

/// The whole milliseconds that have passed since a moment, as far as 64
/// bits hold them.
///
/// Trusted: `std::time::Instant::elapsed` and `Duration::as_millis`. The
/// result depends on the clock, so nothing is stated of it.
#[verifier::external_body]
pub(crate) fn millis_since(start: &std::time::Instant) -> u64 {
    start.elapsed().as_millis() as u64
}

} // verus!
