use llm_analytics_hub::circuit_breaker::{CircuitBreaker, CircuitState};
use llm_analytics_hub::resilience::ResilienceConfig;
use llm_analytics_hub::retry::RetryPolicy;

#[test]
fn test_circuit_breaker_opens_on_failures() {
    let mut cb = CircuitBreaker::new(3, 60);

    assert_eq!(cb.get_state(), CircuitState::Closed);
    assert!(cb.is_available_at(0));

    for _ in 0..3 {
        cb.record_failure_at(0);
    }

    assert_eq!(cb.get_state(), CircuitState::Open);
    assert!(!cb.is_available_at(1));
}

#[test]
fn test_circuit_breaker_closes_on_success() {
    let mut cb = CircuitBreaker::new(3, 1);

    for _ in 0..3 {
        cb.record_failure_at(0);
    }
    assert_eq!(cb.get_state(), CircuitState::Open);

    // Two seconds later the one-second timeout has elapsed.
    assert!(cb.is_available_at(2_000));
    assert_eq!(cb.get_state(), CircuitState::HalfOpen);

    for _ in 0..3 {
        cb.record_success();
    }

    assert_eq!(cb.get_state(), CircuitState::Closed);
}

#[test]
fn exactly_threshold_failures_open_the_circuit() {
    let mut cb = CircuitBreaker::new(4, 60);
    for i in 1..=3 {
        cb.record_failure_at(i);
        assert_eq!(cb.get_state(), CircuitState::Closed);
    }
    cb.record_failure_at(4);
    assert_eq!(cb.get_state(), CircuitState::Open);
}

#[test]
fn success_while_closed_resets_counter_without_changing_state() {
    let mut cb = CircuitBreaker::new(3, 60);
    cb.record_failure_at(0);
    cb.record_failure_at(1);
    assert_eq!(cb.get_stats().failure_count, 2);

    cb.record_success();
    let stats = cb.get_stats();
    assert_eq!(stats.state, CircuitState::Closed);
    assert_eq!(stats.failure_count, 0);

    // The run of failures must start over to open the circuit.
    cb.record_failure_at(2);
    cb.record_failure_at(3);
    assert_eq!(cb.get_state(), CircuitState::Closed);
    cb.record_failure_at(4);
    assert_eq!(cb.get_state(), CircuitState::Open);
}

#[test]
fn failure_in_half_open_reopens() {
    let mut cb = CircuitBreaker::new(2, 1);
    cb.record_failure_at(0);
    cb.record_failure_at(0);
    assert!(cb.is_available_at(5_000));
    assert_eq!(cb.get_state(), CircuitState::HalfOpen);
    cb.record_failure_at(5_001);
    assert_eq!(cb.get_state(), CircuitState::Open);
}

#[test]
fn reset_restores_a_fresh_closed_breaker() {
    let mut cb = CircuitBreaker::new(1, 60);
    cb.record_failure_at(0);
    assert_eq!(cb.get_state(), CircuitState::Open);
    cb.reset();
    let stats = cb.get_stats();
    assert_eq!(stats.state, CircuitState::Closed);
    assert_eq!(stats.failure_count, 0);
    assert_eq!(stats.success_count, 0);
}

#[test]
fn wall_clock_availability_allows_closed_and_half_open() {
    let mut cb = CircuitBreaker::new(2, 60);
    // Closed: always allowed, untouched.
    assert!(cb.is_available());
    assert_eq!(cb.get_state(), CircuitState::Closed);
    // Open with a last failure at the epoch: the sixty-second
    // timeout elapsed long ago against the real clock, so the next
    // check moves the breaker to half-open and allows the trial.
    cb.record_failure_at(0);
    cb.record_failure_at(0);
    assert_eq!(cb.get_state(), CircuitState::Open);
    assert!(cb.is_available());
    assert_eq!(cb.get_state(), CircuitState::HalfOpen);
}

#[test]
fn backoff_doubles_and_caps_at_thirty_seconds() {
    let policy = RetryPolicy::new(5, 100, 2000);
    assert_eq!(policy.initial_delay_ms(), 100);
    assert_eq!(policy.next_delay_ms(100), 200);
    assert_eq!(policy.next_delay_ms(200), 400);
    assert_eq!(policy.next_delay_ms(20_000), 30_000);
    assert!(policy.should_retry(4));
    assert!(!policy.should_retry(5));
}

#[test]
fn fractional_multiplier_truncates() {
    // 1.5x backoff in permille.
    let policy = RetryPolicy::new(3, 10, 1500);
    assert_eq!(policy.next_delay_ms(10), 15);
    assert_eq!(policy.next_delay_ms(15), 22);
}

#[test]
fn default_policy_and_config() {
    let policy = RetryPolicy::default();
    assert_eq!(policy.initial_delay_ms(), 100);
    assert!(policy.should_retry(2));
    assert!(!policy.should_retry(3));

    let config = ResilienceConfig::default();
    assert_eq!(config.failure_threshold, 5);
    assert_eq!(config.timeout_seconds, 60);
    assert_eq!(config.max_retries, 3);
    assert_eq!(config.retry_delay_ms, 100);
    assert_eq!(config.backoff_multiplier_permille, 2000);
}
