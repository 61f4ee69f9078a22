//! The wall clock, as far as the timers need it.

use vstd::prelude::*;
use std::time::{Duration, Instant};

verus! {

/// A point on the monotonic clock of `std::time`. Opaque: nothing is known
/// of a value but that it can be handed on.
#[verifier::external_type_specification]
#[verifier::external_body]
pub struct ExInstant(Instant);

/// The present moment, from `std::time::Instant::now`. Nothing is claimed
/// of it.
#[verifier::external_body]
pub(crate) fn clock_now() -> (now: Instant) {
    Instant::now()
}

/// The time from `earlier` to `later`, from
/// `std::time::Instant::saturating_duration_since`, which gives zero where
/// `earlier` is the later of the two. Nothing is claimed of the result.
#[verifier::external_body]
pub(crate) fn time_between(later: &Instant, earlier: &Instant) -> (elapsed: Duration) {
    later.saturating_duration_since(*earlier)
}

/// The whole nanoseconds of a span of time, from
/// `std::time::Duration::as_nanos`. Nothing is claimed of the result.
#[verifier::external_body]
pub(crate) fn nanos_of(span: &Duration) -> (nanos: u128) {
    span.as_nanos()
}

} // verus!
