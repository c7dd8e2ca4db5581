use latch::retry::{
    apply_jitter, compute_backoff, default_jitter_ppm, next_decision, next_decision_after, AttemptDecision,
    CircuitBreakerConfig, RetryConfig, RetryState,
};

fn base_cfg() -> RetryConfig {
    RetryConfig {
        max_attempts: 3,
        backoff_ms: 100,
        max_backoff_ms: Some(500),
        fallback_provider: None,
        circuit_breaker: None,
        jitter_ppm: 0,
    }
}

#[test]
fn retries_with_exponential_backoff_until_limit() {
    let mut state = RetryState::default();
    let cfg = base_cfg();
    assert_eq!(next_decision(&mut state, &cfg, 0), AttemptDecision::RetryAfter(100));
    assert_eq!(next_decision(&mut state, &cfg, 1), AttemptDecision::RetryAfter(200));
    assert_eq!(next_decision(&mut state, &cfg, 2), AttemptDecision::Stop);
}

#[test]
fn returns_fallback_when_configured() {
    let mut state = RetryState::default();
    let mut cfg = base_cfg();
    cfg.fallback_provider = Some("strong".to_string());
    assert_eq!(next_decision(&mut state, &cfg, 2), AttemptDecision::Fallback { provider: "strong".to_string() });
}

#[test]
fn open_circuit_stops_before_retry_window() {
    let mut state = RetryState::default();
    let mut cfg = base_cfg();
    cfg.circuit_breaker = Some(CircuitBreakerConfig { failure_threshold: 2, open_ms: 10_000, half_open_max_attempts: 1 });
    state.on_failure(&cfg);
    state.on_failure(&cfg);
    assert_eq!(next_decision(&mut state, &cfg, 0), AttemptDecision::Stop);
}

#[test]
fn jitter_affects_backoff() {
    let cfg = RetryConfig {
        max_attempts: 3,
        backoff_ms: 100,
        max_backoff_ms: None,
        fallback_provider: None,
        circuit_breaker: None,
        jitter_ppm: default_jitter_ppm(),
    };
    let mut values: Vec<u64> = Vec::new();
    for _ in 0..10 {
        let mut state = RetryState::default();
        if let AttemptDecision::RetryAfter(d) = next_decision(&mut state, &cfg, 0) {
            values.push(d);
        }
    }
    for v in &values {
        assert!(*v >= 80 && *v <= 120, "Value {} out of range", v);
    }
    let unique_count = values.iter().collect::<std::collections::HashSet<_>>().len();
    assert!(unique_count > 1, "Jitter should produce varying values");
}

#[test]
fn backoff_is_capped_and_saturates() {
    let cfg = base_cfg();
    assert_eq!(compute_backoff(&cfg, 3), 500);
    assert_eq!(compute_backoff(&cfg, 1000), 500);
    let mut uncapped = base_cfg();
    uncapped.max_backoff_ms = None;
    assert_eq!(compute_backoff(&uncapped, 2), 400);
    assert_eq!(compute_backoff(&uncapped, 20), 100 * (1 << 20));
    assert_eq!(compute_backoff(&uncapped, 25), 100 * (1 << 20));
    uncapped.backoff_ms = u64::MAX / 2;
    assert_eq!(compute_backoff(&uncapped, 3), u64::MAX);
    assert_eq!(apply_jitter(10, -20), 0);
    assert_eq!(apply_jitter(u64::MAX, 5), u64::MAX);
    assert_eq!(apply_jitter(100, -7), 93);
}

#[test]
fn circuit_half_open_then_success_closes() {
    let mut cfg = base_cfg();
    cfg.max_attempts = 10;
    cfg.circuit_breaker = Some(CircuitBreakerConfig { failure_threshold: 1, open_ms: 50, half_open_max_attempts: 1 });
    let mut state = RetryState::default();
    state.on_failure(&cfg);
    // within the open period: refused
    assert_eq!(next_decision_after(&mut state, &cfg, 0, 10), AttemptDecision::Stop);
    // after it: one half-open attempt is let through, the next is refused
    assert_eq!(next_decision_after(&mut state, &cfg, 0, 60), AttemptDecision::RetryAfter(100));
    assert_eq!(next_decision_after(&mut state, &cfg, 1, 60), AttemptDecision::Stop);
    state.on_success();
    assert_eq!(next_decision_after(&mut state, &cfg, 1, 0), AttemptDecision::RetryAfter(200));
}
