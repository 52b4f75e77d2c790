use vstd::prelude::*;

verus! {

/// Configuration of the resilience layer: the circuit breaker's
/// threshold and timeout, and the retry policy's attempts, initial
/// delay and backoff multiplier (in permille). The two compose as:
/// check circuit availability; if available, run the retry-wrapped
/// operation; record the final outcome on the breaker. An operation
/// rejected while the circuit is open is surfaced immediately,
/// without retry.
#[derive(Clone, Copy, Debug, PartialEq, Eq, Structural)]
pub struct ResilienceConfig {
    /// Consecutive failures that open the circuit.
    pub failure_threshold: usize,
    /// Seconds the circuit stays open before a trial is allowed.
    pub timeout_seconds: u64,
    /// Maximum retry attempts for one guarded call.
    pub max_retries: usize,
    /// Initial retry delay in milliseconds.
    pub retry_delay_ms: u64,
    /// Exponential backoff multiplier, in permille.
    pub backoff_multiplier_permille: u32,
}

impl Default for ResilienceConfig {
    /// Five failures to open, a minute of timeout, three retries
    /// from a hundred milliseconds, doubling.
    fn default() -> (r: Self)
        ensures
            r.failure_threshold == 5,
            r.timeout_seconds == 60,
            r.max_retries == 3,
            r.retry_delay_ms == 100,
            r.backoff_multiplier_permille == 2000,
    {
        ResilienceConfig {
            failure_threshold: 5,
            timeout_seconds: 60,
            max_retries: 3,
            retry_delay_ms: 100,
            backoff_multiplier_permille: 2000,
        }
    }
}

} // verus!
