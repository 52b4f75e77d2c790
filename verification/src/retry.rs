use crate::num::div_tz;
use vstd::prelude::*;

verus! {

/// The delay that follows `current_ms` under a backoff multiplier in
/// permille, capped at `max_ms`.
pub open spec fn next_delay_spec(current_ms: int, multiplier_permille: int, max_ms: int) -> int {
    let v = div_tz(current_ms * multiplier_permille, 1000);
    if v > max_ms {
        max_ms
    } else {
        v
    }
}

/// Bounded retries with exponential backoff. The asynchronous retry
/// loop itself lives with the caller, which performs one attempt,
/// asks `should_retry` whether another is allowed, and sleeps for
/// `next_delay_ms` between attempts; only the failed call is
/// retried. The multiplier is carried in permille (2000 stands for
/// doubling); delays are capped at thirty seconds.
pub struct RetryPolicy {
    max_attempts: usize,
    initial_delay_ms: u64,
    max_delay_ms: u64,
    multiplier_permille: u32,
}

impl RetryPolicy {
    pub closed spec fn spec_max_attempts(&self) -> int {
        self.max_attempts as int
    }

    pub closed spec fn spec_initial_delay_ms(&self) -> int {
        self.initial_delay_ms as int
    }

    pub closed spec fn spec_max_delay_ms(&self) -> int {
        self.max_delay_ms as int
    }

    pub closed spec fn spec_multiplier_permille(&self) -> int {
        self.multiplier_permille as int
    }

    pub fn new(max_attempts: usize, initial_delay_ms: u64, multiplier_permille: u32) -> (r: Self)
        ensures
            r.spec_max_attempts() == max_attempts,
            r.spec_initial_delay_ms() == initial_delay_ms,
            r.spec_max_delay_ms() == 30_000,
            r.spec_multiplier_permille() == multiplier_permille,
    {
        RetryPolicy {
            max_attempts,
            initial_delay_ms,
            max_delay_ms: 30_000,
            multiplier_permille,
        }
    }

    /// The delay before the very first retry.
    pub fn initial_delay_ms(&self) -> (r: u64)
        ensures
            r == self.spec_initial_delay_ms(),
    {
        self.initial_delay_ms
    }

    /// Whether another attempt is allowed after `attempts` have been
    /// made.
    pub fn should_retry(&self, attempts: usize) -> (r: bool)
        ensures
            r == (attempts < self.spec_max_attempts()),
    {
        attempts < self.max_attempts
    }

    /// The delay that follows `current_ms`: multiplied by the
    /// backoff factor and capped.
    pub fn next_delay_ms(&self, current_ms: u64) -> (r: u64)
        ensures
            r == next_delay_spec(
                current_ms as int,
                self.spec_multiplier_permille(),
                self.spec_max_delay_ms(),
            ),
            r <= self.spec_max_delay_ms() || r == div_tz(
                current_ms as int * self.spec_multiplier_permille(),
                1000,
            ),
    {
        proof {
            assert((current_ms as int) * (self.multiplier_permille as int)
                <= 340_282_366_920_938_463_463_374_607_431_768_211_455) by (nonlinear_arith)
                requires
                    0 <= current_ms as int <= 18_446_744_073_709_551_615,
                    0 <= self.multiplier_permille as int <= 4_294_967_295,
            ;
        }
        let v: u128 = (current_ms as u128) * (self.multiplier_permille as u128) / 1000;
        if v > self.max_delay_ms as u128 {
            self.max_delay_ms
        } else {
            v as u64
        }
    }
}

impl Default for RetryPolicy {
    /// Three attempts, a hundred milliseconds to start, doubling.
    fn default() -> (r: Self)
        ensures
            r.spec_max_attempts() == 3,
            r.spec_initial_delay_ms() == 100,
            r.spec_max_delay_ms() == 30_000,
            r.spec_multiplier_permille() == 2000,
    {
        RetryPolicy::new(3, 100, 2000)
    }
}

} // verus!
