use latch::config::PoolTier;
use latch::score::{push_to_window, Clock, FailureStreaks, LatencyBreakdown, ObservationError, ScoreTier, SystemClock, TokenStats};

#[test]
fn tiers_are_ordered() {
    assert!(ScoreTier::Poor < ScoreTier::Bronze);
    assert!(ScoreTier::Silver < ScoreTier::Gold);
    assert!(ScoreTier::Bronze.is_below(&ScoreTier::Silver));
    assert!(!ScoreTier::Gold.is_below(&ScoreTier::Gold));
    assert_eq!(ScoreTier::Gold.rank(), 3);
    assert_ne!(PoolTier::Fast, PoolTier::Premium);
}

#[test]
fn consecutive_timeouts_exclude_and_success_resets() {
    let mut s = FailureStreaks::new();
    for _ in 0..2 {
        s.record(false, true, false);
    }
    assert_eq!(s.exclusion(), None);
    s.record(false, true, false);
    assert_eq!(s.exclusion(), Some("consecutive timeouts"));
    s.record(true, false, false);
    assert_eq!(s, FailureStreaks::new());
    for _ in 0..3 {
        s.record(false, false, true);
    }
    assert_eq!(s.exclusion(), Some("consecutive stream breaks"));
    s.record(false, true, true);
    assert_eq!((s.consecutive_timeouts, s.consecutive_stream_breaks), (0, 1));
    s.record(false, false, false);
    assert_eq!(s.exclusion(), None);
}

#[test]
fn window_keeps_newest() {
    let mut w: Vec<u32> = Vec::new();
    for i in 0..5 {
        push_to_window(&mut w, i, 3);
    }
    assert_eq!(w, vec![2, 3, 4]);
    push_to_window(&mut w, 9, 0);
    assert!(w.is_empty());
}

#[test]
fn observation_types() {
    let l = LatencyBreakdown { total_ms: 120, ttft_ms: Some(40) };
    assert_eq!(l.ttft_ms, Some(40));
    assert_eq!(TokenStats::default(), TokenStats { input: 0, output: 0 });
    assert_ne!(ObservationError::HttpStatus(500), ObservationError::Timeout);
    let _ = SystemClock.now();
}
