//! Trusted interface to the wall clock.
//!
//! The probabilistic stage is bounded by a timeout checked between rounds,
//! and every pipeline stage records how long it ran.  Clock readings
//! depend on the machine, so none of these wrappers promises anything of
//! its result.

use vstd::prelude::*;
use std::time::{Duration, Instant};

verus! {

#[verifier::external_type_specification]
#[verifier::external_body]
pub struct ExInstant(Instant);

/// Relies on `Duration`'s derived `Clone`, which copies the value.
pub assume_specification[ <Duration as Clone>::clone ](d: &Duration) -> (r: Duration)
    ensures
        r == *d,
;

/// Relies on `std::time::Instant::now`: a reading of the monotonic clock.
#[verifier::external_body]
pub(crate) fn instant_now() -> (r: Instant) {
    Instant::now()
}

/// Relies on `std::time::Instant::elapsed`: the time since `start`.
#[verifier::external_body]
pub(crate) fn instant_elapsed(start: &Instant) -> (r: Duration) {
    start.elapsed()
}

/// Relies on `Duration`'s `PartialOrd`: whether `a` is longer than `b`.
#[verifier::external_body]
pub(crate) fn duration_greater(a: &Duration, b: &Duration) -> (r: bool) {
    a > b
}

/// Relies on `std::time::Duration::from_secs`.
#[verifier::external_body]
pub(crate) fn duration_from_secs(secs: u64) -> (r: Duration) {
    Duration::from_secs(secs)
}

} // verus!
