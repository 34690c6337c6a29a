//! Reading the monotonic clock.
//!
//! Components keep the instant at which they were created and measure every
//! later moment as the nanoseconds that have passed since then.

use std::time::Instant;
use vstd::prelude::*;

verus! {

/// `std::time::Instant`, carried as an opaque value.
#[verifier::external_type_specification]
#[verifier::external_body]
pub struct ExInstant(Instant);

/// Calls `Instant::now`. Nothing is known of the instant it returns.
#[verifier::external_body]
pub(crate) fn start() -> (epoch: Instant) {
    Instant::now()
}

/// Calls `Instant::elapsed` on `epoch` and converts the duration to whole
/// nanoseconds. Nothing is known of the number: it depends on when the call is
/// made.
#[verifier::external_body]
pub(crate) fn nanos_since(epoch: &Instant) -> (now: u128) {
    epoch.elapsed().as_nanos()
}

/// The time that has passed at `now` since `start`; zero when `start` is not
/// in the past.
pub open spec fn elapsed(now: u128, start: u128) -> u128 {
    if now >= start {
        (now - start) as u128
    } else {
        0
    }
}

/// Computes [`elapsed`].
pub fn elapsed_between(now: u128, start: u128) -> (r: u128)
    ensures
        r == elapsed(now, start),
{
    if now >= start {
        now - start
    } else {
        0
    }
}

} // verus!
