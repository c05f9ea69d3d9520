//! Durations and timestamps, counted in nanoseconds.
//!
//! A duration is held as a `u128` count of nanoseconds. The largest duration
//! is `u64::MAX` seconds plus 999 999 999 nanoseconds; arithmetic that would
//! go past it is refused (reported as an overflow).
use vstd::prelude::*;

verus! {

/// Nanoseconds in one millisecond.
pub const NANOS_PER_MILLI: u128 = 1_000_000;

/// Nanoseconds in one microsecond.
pub const NANOS_PER_MICRO: u128 = 1_000;

/// The largest representable duration, in nanoseconds.
pub const MAX_DURATION_NANOS: u128 = 18_446_744_073_709_551_615_999_999_999;

/// Duration of `ms` milliseconds, in nanoseconds.
pub open spec fn millis(ms: int) -> int {
    ms * 1_000_000
}

/// Whether `a + b` is still a duration.
pub open spec fn fits(a: int, b: int) -> bool {
    a + b <= MAX_DURATION_NANOS
}

/// The sum of two durations, or `None` where it passes the largest duration.
pub fn add_durations(a: u128, b: u128) -> (r: Option<u128>)
    ensures
        r == (if fits(a as int, b as int) { Some((a + b) as u128) } else { None::<u128> }),
{
    if a > MAX_DURATION_NANOS || b > MAX_DURATION_NANOS - a {
        None
    } else {
        Some(a + b)
    }
}

/// A whole number of milliseconds as a duration in nanoseconds.
pub fn from_millis(ms: u64) -> (r: u128)
    ensures
        r == millis(ms as int),
        r <= MAX_DURATION_NANOS,
{
    (ms as u128) * NANOS_PER_MILLI
}

} // verus!
