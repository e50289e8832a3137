//! Drift-free pacing: how long to wait before the `n`-th event of a stream
//! that runs at a fixed rate from a fixed start.

use crate::clock::{duration_as_millis, instant_elapsed, instant_now};
use std::time::Instant;
use vstd::arithmetic::div_mod::{lemma_basic_div, lemma_div_is_ordered};
use vstd::prelude::*;

verus! {

/// The wait that stands for "never": rate zero blocks instead of pacing.
pub const WAIT_FOREVER_MS: u64 = 0x7fff_ffff_ffff_ffff;

/// Milliseconds after the start at which event `n` is due at `rate` events
/// per second: `floor(1000 * n / rate)`.
pub open spec fn expected_elapsed_ms(rate: u64, n: u64) -> int
    recommends
        rate > 0,
{
    (1000 * n) / (rate as int)
}

/// The pacing decision for event `n`, `elapsed_ms` after the start: `Some`
/// of the milliseconds still to wait, or `None` to proceed at once.
pub open spec fn pacing(rate: u64, n: u64, elapsed_ms: int) -> Option<u64> {
    if rate == 0 {
        Some(WAIT_FOREVER_MS)
    } else if expected_elapsed_ms(rate, n) > elapsed_ms {
        Some((expected_elapsed_ms(rate, n) - elapsed_ms) as u64)
    } else {
        None
    }
}

/// The pacing decision for event `n` (the count of events already
/// dispatched) at `rate` events per second, `elapsed_ms` after the start.
pub fn sleep_duration(rate: u64, n: u64, elapsed_ms: u128) -> (r: Option<u64>)
    requires
        rate > 0 ==> expected_elapsed_ms(rate, n) - elapsed_ms <= u64::MAX,
    ensures
        r == pacing(rate, n, elapsed_ms as int),
{
    if rate == 0 {
        return Some(WAIT_FOREVER_MS);
    }
    let scaled: u128 = 1000u128 * (n as u128);
    let expect: u128 = scaled / (rate as u128);
    if expect > elapsed_ms {
        let wait: u128 = expect - elapsed_ms;
        Some(wait as u64)
    } else {
        None
    }
}

/// A start instant and a rate in events per second.
#[derive(Debug)]
pub struct Pacer {
    kick_time: Instant,
    rate: u64,
}

impl Pacer {
    /// The rate that the pacer was made with.
    pub closed spec fn rate(&self) -> u64 {
        self.rate
    }

    /// A pacer that starts now.
    pub fn new(rate: u64) -> (r: Pacer)
        ensures
            r.rate() == rate,
    {
        Pacer { kick_time: instant_now(), rate }
    }

    /// The pacing decision for event `n` at the time of the call: `Some` of
    /// the milliseconds to wait, `None` to proceed. With rate zero the clock
    /// is not read and the answer is always to wait.
    pub fn get_sleep_duration(&self, n: u64) -> (r: Option<u64>)
        requires
            self.rate() > 0 ==> expected_elapsed_ms(self.rate(), n) <= u64::MAX,
        ensures
            exists|elapsed_ms: int| 0 <= elapsed_ms && r == pacing(self.rate(), n, elapsed_ms),
            self.rate() == 0 ==> r == Some(WAIT_FOREVER_MS),
    {
        if self.rate == 0 {
            assert(pacing(self.rate(), n, 0) == Some(WAIT_FOREVER_MS));
            return Some(WAIT_FOREVER_MS);
        }
        let since_start = instant_elapsed(&self.kick_time);
        let elapsed_ms: u128 = duration_as_millis(&since_start);
        let r = sleep_duration(self.rate, n, elapsed_ms);
        assert(r == pacing(self.rate(), n, elapsed_ms as int));
        r
    }
}

/// Deadlines do not decrease with the event index.
pub proof fn lemma_deadlines_monotonic(rate: u64, n: u64, m: u64)
    requires
        rate > 0,
        n <= m,
    ensures
        expected_elapsed_ms(rate, n) <= expected_elapsed_ms(rate, m),
{
    lemma_div_is_ordered(1000 * n, 1000 * m, rate as int);
}

/// Whatever time has passed, a wait ends exactly at the event's deadline,
/// `floor(1000 * n / rate)` milliseconds after the start, and the answer is
/// to proceed exactly when that deadline has been reached.
pub proof fn lemma_wait_ends_at_deadline(rate: u64, n: u64, elapsed_ms: int)
    requires
        rate > 0,
        0 <= elapsed_ms,
        expected_elapsed_ms(rate, n) - elapsed_ms <= u64::MAX,
    ensures
        pacing(rate, n, elapsed_ms) matches Some(wait) ==> wait > 0 && elapsed_ms + wait
            == expected_elapsed_ms(rate, n),
        pacing(rate, n, elapsed_ms) is None <==> elapsed_ms >= expected_elapsed_ms(rate, n),
{
}

/// With rate zero the answer is to wait, whatever the index and the time.
pub proof fn lemma_rate_zero_always_waits(n: u64, elapsed_ms: int)
    ensures
        pacing(0, n, elapsed_ms) == Some(WAIT_FOREVER_MS),
{
}

/// Events whose index is below a thousandth of the rate are due at once:
/// there is never a wait for them.
pub proof fn lemma_first_millisecond_never_waits(rate: u64, n: u64, elapsed_ms: int)
    requires
        1000 * n < rate,
        0 <= elapsed_ms,
    ensures
        expected_elapsed_ms(rate, n) == 0,
        pacing(rate, n, elapsed_ms) is None,
{
    lemma_basic_div(1000 * n, rate as int);
}

} // verus!
