use crate::window::TS_LIMIT_MILLIS;
use vstd::prelude::*;

verus! {

/// Circuit breaker states.
#[derive(Clone, Copy, Debug, PartialEq, Eq, Structural)]
pub enum CircuitState {
    /// Operations are allowed.
    Closed,
    /// Operations are rejected without being attempted.
    Open,
    /// A trial period: operations are allowed while recovery is
    /// probed.
    HalfOpen,
}

/// Counters describing the breaker's state.
#[derive(Clone, Copy, Debug, PartialEq, Eq, Structural)]
pub struct CircuitBreakerStats {
    pub state: CircuitState,
    pub failure_count: u64,
    pub success_count: u64,
}

/// How one recorded failure moves the machine: the counter rises,
/// and the circuit opens from `Closed` once the counter reaches the
/// threshold, or immediately from `HalfOpen`.
pub open spec fn failure_step(s: CircuitState, count: int, threshold: int) -> (CircuitState, int) {
    let c = count + 1;
    match s {
        CircuitState::Closed => if c >= threshold {
            (CircuitState::Open, c)
        } else {
            (CircuitState::Closed, c)
        },
        CircuitState::HalfOpen => (CircuitState::Open, c),
        CircuitState::Open => (CircuitState::Open, c),
    }
}

/// The machine after `n` consecutive recorded failures from a fresh
/// closed breaker.
pub open spec fn after_failures(threshold: int, n: nat) -> (CircuitState, int)
    decreases n,
{
    if n == 0 {
        (CircuitState::Closed, 0)
    } else {
        let prev = after_failures(threshold, (n - 1) as nat);
        failure_step(prev.0, prev.1, threshold)
    }
}

/// From a fresh closed breaker, fewer consecutive failures than the
/// threshold leave the circuit closed, and exactly the threshold-th
/// failure opens it (as does every one after).
pub proof fn lemma_opens_exactly_at_threshold(threshold: int, n: nat)
    requires
        threshold >= 1,
    ensures
        after_failures(threshold, n).1 == n,
        n < threshold ==> after_failures(threshold, n).0 == CircuitState::Closed,
        n >= threshold ==> after_failures(threshold, n).0 == CircuitState::Open,
    decreases n,
{
    if n > 0 {
        lemma_opens_exactly_at_threshold(threshold, (n - 1) as nat);
    }
}

/// What an availability check at clock reading `now` does: closed
/// and half-open circuits let the operation through untouched; an
/// open circuit rejects it, unless the timeout has elapsed since the
/// last failure, which moves the breaker to half-open with zeroed
/// counters and lets the trial through.
pub open spec fn availability_outcome(
    pre: CircuitBreaker,
    post: CircuitBreaker,
    now: i64,
    r: bool,
) -> bool {
    &&& post.threshold() == pre.threshold()
    &&& post.timeout() == pre.timeout()
    &&& match pre.spec_state() {
        CircuitState::Closed => r && post == pre,
        CircuitState::HalfOpen => r && post == pre,
        CircuitState::Open => {
            if match pre.last_failure() {
                Some(t) => now - t > pre.timeout(),
                None => false,
            } {
                &&& r
                &&& post.spec_state() == CircuitState::HalfOpen
                &&& post.failures() == 0
                &&& post.successes() == 0
                &&& post.last_failure() == pre.last_failure()
            } else {
                !r && post == pre
            }
        },
    }
}

/// A fault-tolerance gate: after `failure_threshold` consecutive
/// failures while closed it opens and rejects operations; once the
/// timeout has elapsed since the last failure it lets a trial
/// through (half-open), closing again after three consecutive
/// successes. Time is supplied by the caller as milliseconds.
pub struct CircuitBreaker {
    state: CircuitState,
    failure_count: u64,
    success_count: u64,
    last_failure_millis: Option<i64>,
    failure_threshold: u64,
    timeout_millis: i64,
}

impl CircuitBreaker {
    pub closed spec fn inv(&self) -> bool {
        &&& self.failure_threshold >= 1
        &&& 0 <= self.timeout_millis <= 1_000_000_000_000
        &&& match self.last_failure_millis {
            Some(t) => 0 <= t <= TS_LIMIT_MILLIS,
            None => true,
        }
    }

    pub closed spec fn spec_state(&self) -> CircuitState {
        self.state
    }

    pub closed spec fn failures(&self) -> int {
        self.failure_count as int
    }

    pub closed spec fn successes(&self) -> int {
        self.success_count as int
    }

    pub closed spec fn last_failure(&self) -> Option<i64> {
        self.last_failure_millis
    }

    pub closed spec fn threshold(&self) -> int {
        self.failure_threshold as int
    }

    pub closed spec fn timeout(&self) -> int {
        self.timeout_millis as int
    }

    /// A fresh breaker: closed, with zeroed counters. The timeout is
    /// given in whole seconds.
    pub fn new(failure_threshold: usize, timeout_seconds: u64) -> (r: Self)
        requires
            failure_threshold >= 1,
            failure_threshold <= u64::MAX,
            timeout_seconds <= 1_000_000_000,
        ensures
            r.inv(),
            r.spec_state() == CircuitState::Closed,
            r.failures() == 0,
            r.successes() == 0,
            r.last_failure() is None,
            r.threshold() == failure_threshold,
            r.timeout() == timeout_seconds * 1000,
    {
        CircuitBreaker {
            state: CircuitState::Closed,
            failure_count: 0,
            success_count: 0,
            last_failure_millis: None,
            failure_threshold: failure_threshold as u64,
            timeout_millis: (timeout_seconds * 1000) as i64,
        }
    }

    /// Whether an operation may be attempted now. While open, the
    /// elapse of the timeout since the last failure (checked lazily
    /// here, not by a timer) moves the breaker to half-open with
    /// zeroed counters and lets the operation through.
    pub fn is_available_at(&mut self, now_millis: i64) -> (r: bool)
        requires
            old(self).inv(),
            0 <= now_millis <= TS_LIMIT_MILLIS,
        ensures
            final(self).inv(),
            availability_outcome(*old(self), *final(self), now_millis, r),
    {
        match self.state {
            CircuitState::Closed => true,
            CircuitState::HalfOpen => true,
            CircuitState::Open => {
                match self.last_failure_millis {
                    Some(t) => {
                        if now_millis - t > self.timeout_millis {
                            self.state = CircuitState::HalfOpen;
                            self.failure_count = 0;
                            self.success_count = 0;
                            true
                        } else {
                            false
                        }
                    },
                    None => false,
                }
            },
        }
    }

    /// `is_available_at` against the wall clock: for some clock
    /// reading the availability outcome holds, so while open the
    /// operation is rejected unless the breaker has moved to
    /// half-open, and closed or half-open circuits always allow it
    /// untouched.
    pub fn is_available(&mut self) -> (r: bool)
        requires
            old(self).inv(),
        ensures
            final(self).inv(),
            exists|now: i64|
                0 <= now <= TS_LIMIT_MILLIS && #[trigger] availability_outcome(
                    *old(self),
                    *final(self),
                    now,
                    r,
                ),
    {
        let raw = crate::clock::now_millis();
        let now = crate::num::clamp_i64(raw, 0, TS_LIMIT_MILLIS);
        let r = self.is_available_at(now);
        proof {
            assert(availability_outcome(*old(self), *self, now, r));
        }
        r
    }

    /// Record a successful operation: while closed it clears the
    /// consecutive-failure counter without changing state; while
    /// half-open, the third consecutive success closes the circuit.
    pub fn record_success(&mut self)
        requires
            old(self).inv(),
        ensures
            final(self).inv(),
            final(self).threshold() == old(self).threshold(),
            final(self).timeout() == old(self).timeout(),
            match old(self).spec_state() {
                CircuitState::Closed => {
                    &&& final(self).spec_state() == CircuitState::Closed
                    &&& final(self).failures() == 0
                    &&& final(self).successes() == old(self).successes()
                    &&& final(self).last_failure() == old(self).last_failure()
                },
                CircuitState::HalfOpen => {
                    if old(self).successes() + 1 >= 3 {
                        &&& final(self).spec_state() == CircuitState::Closed
                        &&& final(self).failures() == 0
                        &&& final(self).successes() == 0
                        &&& final(self).last_failure() is None
                    } else {
                        &&& final(self).spec_state() == CircuitState::HalfOpen
                        &&& final(self).failures() == old(self).failures()
                        &&& final(self).successes() == old(self).successes() + 1
                        &&& final(self).last_failure() == old(self).last_failure()
                    }
                },
                CircuitState::Open => *final(self) == *old(self),
            },
    {
        match self.state {
            CircuitState::HalfOpen => {
                proof {
                    if self.success_count == u64::MAX {
                        assert(self.successes() + 1 >= 3);
                    }
                }
                if self.success_count >= 2 {
                    self.state = CircuitState::Closed;
                    self.failure_count = 0;
                    self.success_count = 0;
                    self.last_failure_millis = None;
                } else {
                    self.success_count = self.success_count + 1;
                }
            },
            CircuitState::Closed => {
                self.failure_count = 0;
            },
            CircuitState::Open => {},
        }
    }

    /// Record a failed operation: the counter rises and the failure
    /// time is noted; the circuit opens from closed at the
    /// threshold, and reopens immediately from half-open.
    pub fn record_failure_at(&mut self, now_millis: i64)
        requires
            old(self).inv(),
            0 <= now_millis <= TS_LIMIT_MILLIS,
            old(self).failures() < u64::MAX,
        ensures
            final(self).inv(),
            final(self).threshold() == old(self).threshold(),
            final(self).timeout() == old(self).timeout(),
            final(self).failures() == old(self).failures() + 1,
            final(self).last_failure() == Some(now_millis),
            (final(self).spec_state(), final(self).failures()) == failure_step(
                old(self).spec_state(),
                old(self).failures(),
                old(self).threshold(),
            ),
            final(self).successes() == (if old(self).spec_state() == CircuitState::HalfOpen {
                0
            } else {
                old(self).successes()
            }),
    {
        self.failure_count = self.failure_count + 1;
        self.last_failure_millis = Some(now_millis);
        match self.state {
            CircuitState::Closed => {
                if self.failure_count >= self.failure_threshold {
                    self.state = CircuitState::Open;
                }
            },
            CircuitState::HalfOpen => {
                self.state = CircuitState::Open;
                self.success_count = 0;
            },
            CircuitState::Open => {},
        }
    }

    /// `record_failure_at` against the wall clock.
    pub fn record_failure(&mut self)
        requires
            old(self).inv(),
            old(self).failures() < u64::MAX,
        ensures
            final(self).inv(),
            final(self).threshold() == old(self).threshold(),
            final(self).timeout() == old(self).timeout(),
            final(self).failures() == old(self).failures() + 1,
            final(self).last_failure() is Some,
            (final(self).spec_state(), final(self).failures()) == failure_step(
                old(self).spec_state(),
                old(self).failures(),
                old(self).threshold(),
            ),
            final(self).successes() == (if old(self).spec_state() == CircuitState::HalfOpen {
                0
            } else {
                old(self).successes()
            }),
    {
        let raw = crate::clock::now_millis();
        let now = crate::num::clamp_i64(raw, 0, TS_LIMIT_MILLIS);
        self.record_failure_at(now)
    }

    /// The current state.
    pub fn get_state(&self) -> (r: CircuitState)
        ensures
            r == self.spec_state(),
    {
        self.state
    }

    /// Force the breaker back to closed with zeroed counters.
    pub fn reset(&mut self)
        requires
            old(self).inv(),
        ensures
            final(self).inv(),
            final(self).spec_state() == CircuitState::Closed,
            final(self).failures() == 0,
            final(self).successes() == 0,
            final(self).last_failure() is None,
            final(self).threshold() == old(self).threshold(),
            final(self).timeout() == old(self).timeout(),
    {
        self.state = CircuitState::Closed;
        self.failure_count = 0;
        self.success_count = 0;
        self.last_failure_millis = None;
    }

    /// The current state and counters.
    pub fn get_stats(&self) -> (r: CircuitBreakerStats)
        ensures
            r.state == self.spec_state(),
            r.failure_count == self.failures(),
            r.success_count == self.successes(),
    {
        CircuitBreakerStats {
            state: self.state,
            failure_count: self.failure_count,
            success_count: self.success_count,
        }
    }
}

} // verus!
