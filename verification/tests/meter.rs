use latch::meter::{MeterConfig, MeterRejectReason, MeterVerdict, UsageMeter};

fn cfg() -> MeterConfig {
    MeterConfig { session_token_limit: Some(1000), session_request_limit: Some(2), currency: "USD".to_string() }
}

#[test]
fn tracks_usage_and_cost() {
    let mut meter = UsageMeter::new();
    let usage = meter.record_request("s1", 200, 100);
    assert_eq!(usage.input_tokens, 200);
    assert_eq!(usage.output_tokens, 100);
    assert_eq!(usage.requests, 1);
}

#[test]
fn rejects_when_token_limit_would_be_exceeded() {
    let mut meter = UsageMeter::new();
    meter.record_request("s1", 800, 100);
    let verdict = meter.preview_request("s1", &cfg(), 80, 50);
    assert_eq!(verdict, MeterVerdict::Reject(MeterRejectReason::SessionTokenLimitExceeded));
}

#[test]
fn rejects_when_request_limit_would_be_exceeded() {
    let mut meter = UsageMeter::new();
    meter.record_request("s1", 10, 10);
    meter.record_request("s1", 10, 10);
    let verdict = meter.preview_request("s1", &cfg(), 1, 1);
    assert_eq!(verdict, MeterVerdict::Reject(MeterRejectReason::SessionRequestLimitExceeded));
}

#[test]
fn allowed_request_stays_within_limits_once_recorded() {
    let mut meter = UsageMeter::new();
    meter.record_request("s1", 800, 100);
    assert_eq!(meter.preview_request("s1", &cfg(), 60, 40), MeterVerdict::Allow);
    let usage = meter.record_request("s1", 60, 40);
    assert_eq!(usage.input_tokens + usage.output_tokens, 1000);
    assert_eq!(meter.get_session_usage("s1").unwrap().requests, 2);
    assert!(meter.get_session_usage("s2").is_none());
    assert_eq!(meter.preview_request("s2", &cfg(), 1000, 0), MeterVerdict::Allow);
    let unlimited = MeterConfig { session_token_limit: None, session_request_limit: None, currency: "USD".to_string() };
    assert_eq!(meter.preview_request("s1", &unlimited, u64::MAX, u64::MAX), MeterVerdict::Allow);
}
