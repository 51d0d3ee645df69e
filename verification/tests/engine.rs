use staf::batch::BatchState;
use staf::limiter::RateLimiter;
use staf::retry::{
    backoff_delay_ms, decide_after_attempt, run_retry_policy, CallEvent, RetryDecision,
    RetryResult,
};

#[test]
fn active_count_never_exceeds_bound() {
    // Concurrency bound 2 over 5 rows: drive three rows as far as the
    // gate allows and watch the in-flight count.
    let mut s = BatchState::new(5, 2);
    let mut max_active = 0u32;
    for i in 0..5 {
        s.start_row(i);
    }
    assert!(s.grant_slot(0));
    assert!(s.grant_slot(1));
    s.grant_token(0);
    max_active = max_active.max(s.active_count());
    s.grant_token(1);
    max_active = max_active.max(s.active_count());
    // Both permits are held; the third row must wait until one row ends.
    s.response_received(0);
    max_active = max_active.max(s.active_count());
    s.finish_row(0, true);
    max_active = max_active.max(s.active_count());
    assert!(s.grant_slot(2));
    s.grant_token(2);
    max_active = max_active.max(s.active_count());
    assert!(max_active <= 2);
}

#[test]
fn batch_counters_track_outcomes() {
    let mut s = BatchState::new(3, 3);
    for i in 0..3 {
        s.start_row(i);
    }
    for i in 0..3 {
        assert!(s.grant_slot(i));
        s.grant_token(i);
    }
    s.response_received(0);
    s.finish_row(0, true);
    s.finish_row(1, false);
    s.response_received(2);
    s.finish_row(2, false);
    assert_eq!(s.aggregate(), (1, 2));
    assert_eq!(s.progress(), (3, 3));
    assert_eq!(s.active_count(), 0);
}

#[test]
fn cancellation_abandons_unstarted_rows_only() {
    // Five rows; one completes, cancellation fires, the other four are
    // abandoned at the slot checkpoint: the aggregate reflects exactly
    // one completed row and no failures.
    let mut s = BatchState::new(5, 1);
    for i in 0..5 {
        s.start_row(i);
    }
    assert!(s.grant_slot(0));
    s.grant_token(0);
    s.response_received(0);
    s.finish_row(0, true);
    s.cancel();
    for i in 1..5 {
        assert!(!s.grant_slot(i));
    }
    assert_eq!(s.aggregate(), (1, 0));
    assert_eq!(s.progress(), (1, 5));
}

#[test]
fn cancel_is_idempotent() {
    let mut s = BatchState::new(1, 1);
    s.cancel();
    assert!(s.is_cancelled());
    s.cancel();
    assert!(s.is_cancelled());
    assert_eq!(s.aggregate(), (0, 0));
}

#[test]
fn rate_limiter_spaces_admissions() {
    // 3 per minute: one admission every 20 seconds.
    let mut l = RateLimiter::new(3);
    assert!(l.try_admit(0));
    assert!(!l.try_admit(1));
    assert!(!l.try_admit(19_999));
    assert_eq!(l.next_ready_ms(19_999), 20_000);
    assert!(l.try_admit(20_000));
    assert!(!l.try_admit(20_001));
    assert!(l.try_admit(40_000));
}

#[test]
fn rate_limiter_rolling_window_stays_within_rate() {
    // 6 per minute, with the caller polling every second for five
    // minutes: no 60-second window may hold more than 6 admissions.
    let mut l = RateLimiter::new(6);
    let mut admitted: Vec<u64> = Vec::new();
    for t in 0..300u64 {
        let now = t * 1000;
        if l.try_admit(now) {
            admitted.push(now);
        }
    }
    for &w in admitted.iter() {
        let in_window = admitted
            .iter()
            .filter(|&&t| w <= t && t < w + 60_000)
            .count();
        assert!(in_window <= 6, "window at {w} held {in_window}");
    }
    // The steady rate is actually achieved, not just bounded.
    assert!(admitted.len() >= 29);
}

#[test]
fn rate_limiter_next_ready_is_exact() {
    let mut l = RateLimiter::new(60);
    assert!(l.try_admit(5));
    // One admission per second: ready again exactly at 1005.
    let t = l.next_ready_ms(5);
    assert_eq!(t, 1005);
    assert!(!l.try_admit(1004));
    assert!(l.try_admit(1005));
}

#[test]
fn transient_failures_then_success_uses_four_attempts() {
    let evs = vec![
        CallEvent::Status(503),
        CallEvent::Status(503),
        CallEvent::Status(503),
        CallEvent::Status(200),
    ];
    assert_eq!(run_retry_policy(&evs), Some((4, RetryResult::Succeeded)));
}

#[test]
fn transient_failures_on_all_attempts_exhaust_the_budget() {
    let evs = vec![CallEvent::Status(503); 6];
    assert_eq!(
        run_retry_policy(&evs),
        Some((6, RetryResult::TransientExhausted))
    );
}

#[test]
fn permanent_failure_makes_exactly_one_attempt() {
    let evs = vec![CallEvent::Status(401), CallEvent::Status(200)];
    assert_eq!(
        run_retry_policy(&evs),
        Some((1, RetryResult::PermanentFailure))
    );
    assert!(matches!(
        decide_after_attempt(0, &CallEvent::Status(401)),
        RetryDecision::FailPermanent
    ));
}

#[test]
fn transport_failures_are_retried_with_exponential_backoff() {
    match decide_after_attempt(0, &CallEvent::SendFailed) {
        RetryDecision::RetryAfter(d) => assert_eq!(d, 500),
        _ => panic!("first transport failure must be retried"),
    }
    match decide_after_attempt(3, &CallEvent::Status(429)) {
        RetryDecision::RetryAfter(d) => assert_eq!(d, 4000),
        _ => panic!("transient status must be retried"),
    }
    assert!(matches!(
        decide_after_attempt(5, &CallEvent::Status(503)),
        RetryDecision::FailTransientExhausted
    ));
    assert!(matches!(
        decide_after_attempt(2, &CallEvent::BadBody),
        RetryDecision::FailPermanent
    ));
    assert!(matches!(
        decide_after_attempt(0, &CallEvent::Completed),
        RetryDecision::Done
    ));
}

#[test]
fn backoff_delays_double_from_500ms() {
    assert_eq!(backoff_delay_ms(0), 500);
    assert_eq!(backoff_delay_ms(1), 1000);
    assert_eq!(backoff_delay_ms(2), 2000);
    assert_eq!(backoff_delay_ms(3), 4000);
    assert_eq!(backoff_delay_ms(4), 8000);
}

#[test]
fn incomplete_event_recording_yields_none() {
    let evs = vec![CallEvent::Status(503)];
    assert_eq!(run_retry_policy(&evs), None);
}

#[test]
fn empty_batch_completes_with_zero_counts() {
    let s = BatchState::new(0, 4);
    assert_eq!(s.aggregate(), (0, 0));
    assert_eq!(s.progress(), (0, 0));
    assert_eq!(s.active_count(), 0);
}

#[test]
fn rate_limit_of_one_admits_once_per_minute() {
    let mut l = RateLimiter::new(1);
    assert!(l.try_admit(0));
    assert!(!l.try_admit(59_999));
    assert_eq!(l.next_ready_ms(59_999), 60_000);
    assert!(l.try_admit(60_000));
}
