//! Monotonic time, measured in whole nanoseconds.

use std::time::{Duration, Instant};
use vstd::prelude::*;

verus! {

/// The longest span a `Duration` can hold (`u64::MAX` seconds and
/// 999 999 999 nanoseconds), in nanoseconds.
pub const DURATION_MAX_NANOS: u128 = 18_446_744_073_709_551_615_999_999_999u128;

#[verifier::external_type_specification]
#[verifier::external_body]
pub struct ExInstant(Instant);

/// Calls `Instant::now`. It reads the monotonic clock, so nothing is
/// promised of the value.
#[verifier::external_body]
pub(crate) fn instant_now() -> Instant {
    Instant::now()
}

/// Calls `Instant::elapsed`: the time since `instant`, as read from the
/// clock now. Nothing is promised of the value.
#[verifier::external_body]
pub(crate) fn instant_elapsed(instant: &Instant) -> Duration {
    instant.elapsed()
}

/// Calls `Duration::as_nanos`. The contract claims only what the type's
/// documentation fixes: no `Duration` is longer than `Duration::MAX`.
#[verifier::external_body]
pub(crate) fn duration_as_nanos(duration: &Duration) -> (r: u128)
    ensures
        r <= DURATION_MAX_NANOS,
{
    duration.as_nanos()
}

} // verus!
