//! Readings of the system's clocks, and the epoch timestamp that packets carry.

use std::time::{Duration, Instant, SystemTime};
use vstd::prelude::*;

verus! {

/// `std::time::Instant`, known by name only: a value is carried, never read.
#[verifier::external_type_specification]
#[verifier::external_body]
pub struct ExInstant(std::time::Instant);

/// `std::time::SystemTime`, known by name only: a value is carried, never
/// read.
#[verifier::external_type_specification]
#[verifier::external_body]
pub struct ExSystemTime(std::time::SystemTime);

/// `Instant::now`: a reading of the monotonic clock. Nothing is claimed of it.
#[verifier::external_body]
pub(crate) fn instant_now() -> Instant {
    Instant::now()
}

/// `Instant::elapsed`: the time that has passed since `start` was read.
/// Nothing is claimed of it.
#[verifier::external_body]
pub(crate) fn instant_elapsed(start: &Instant) -> Duration {
    start.elapsed()
}

/// `Duration::as_millis`: the whole milliseconds in `d`. A `Duration` is
/// opaque here, so nothing is claimed of the number.
#[verifier::external_body]
pub(crate) fn duration_as_millis(d: &Duration) -> u128 {
    d.as_millis()
}

/// `SystemTime::now`: a reading of the wall clock. Nothing is claimed of it.
#[verifier::external_body]
pub(crate) fn system_now() -> SystemTime {
    SystemTime::now()
}

/// `SystemTime::duration_since` with `UNIX_EPOCH`: the time from the epoch to
/// `t`, or `None` where `t` lies before the epoch. Nothing is claimed of it.
#[verifier::external_body]
pub(crate) fn since_unix_epoch(t: &SystemTime) -> Option<Duration> {
    match t.duration_since(std::time::UNIX_EPOCH) {
        Ok(d) => Some(d),
        Err(_) => None,
    }
}

/// A count of milliseconds as a signed timestamp, where it is representable.
pub fn millis_to_timestamp(ms: u128) -> (r: Option<i64>)
    ensures
        r == if ms <= i64::MAX {
            Some(ms as i64)
        } else {
            None
        },
{
    if ms <= i64::MAX as u128 {
        Some(ms as i64)
    } else {
        None
    }
}

/// The wall clock in whole milliseconds since the Unix epoch. `None` where
/// the clock stands before the epoch or the count exceeds `i64::MAX`.
pub fn now_millis() -> (r: Option<i64>)
    ensures
        r matches Some(ms) ==> ms >= 0,
{
    let now = system_now();
    match since_unix_epoch(&now) {
        Some(d) => millis_to_timestamp(duration_as_millis(&d)),
        None => None,
    }
}

} // verus!
