//! The monotonic clock.
use std::time::Instant;
use vstd::prelude::*;

verus! {

/// A point in time on the monotonic clock.
#[verifier::external_type_specification]
#[verifier::external_body]
pub struct ExInstant(std::time::Instant);

/// The current time, by `Instant::now`. Nothing is claimed of it.
#[verifier::external_body]
pub(crate) fn now() -> Instant {
    Instant::now()
}

/// How many nanoseconds have passed since `start`, by `Instant::elapsed`. Nothing is claimed of the
/// number: it depends on the time of the call.
#[verifier::external_body]
pub(crate) fn elapsed_since(start: &Instant) -> u128 {
    start.elapsed().as_nanos()
}

/// Whether `time` is at `limit` or after it, by `Instant`'s order. Nothing is claimed of the answer:
/// nothing is known of what either holds.
#[verifier::external_body]
pub(crate) fn not_before(time: &Instant, limit: &Instant) -> bool {
    time >= limit
}

} // verus!
