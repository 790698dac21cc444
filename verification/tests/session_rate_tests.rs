//! Session idle-timeout and rate-limiter behavior.
use request_gate::errors::{RateLimited, SessionError};
use request_gate::rate_limit::RateLimiter;
use request_gate::session::{SessionTracker, DEFAULT_SESSION_TIMEOUT_SECS};

#[test]
fn fresh_activity_passes_and_refreshes() {
    let mut t = SessionTracker::new();
    let now: u64 = 10_000;
    t.touch(42, now);
    assert!(t.check_and_refresh(42, now + 60, 1800).is_ok());
    // the refresh moved last activity forward: another check much later,
    // within the timeout of the refreshed instant, still passes
    assert!(t.check_and_refresh(42, now + 60 + 1800, 1800).is_ok());
}

#[test]
fn stale_session_fails_then_counts_as_fresh() {
    let mut t = SessionTracker::new();
    let timeout: u64 = 1800;
    let now: u64 = 100_000;
    t.touch(7, now);
    // last activity is timeout + 1 seconds in the past: expired, evicted
    assert!(matches!(
        t.check_and_refresh(7, now + timeout + 1, timeout),
        Err(SessionError::Expired)
    ));
    // the record was evicted: the same subject is now treated as fresh
    assert!(t.check_and_refresh(7, now + timeout + 2, timeout).is_ok());
}

#[test]
fn never_tracked_subject_passes_unchecked() {
    let mut t = SessionTracker::new();
    // no record means no timeout to violate, at any instant
    assert!(t.check_and_refresh(1234, 0, 1800).is_ok());
    assert!(t.check_and_refresh(1234, u64::MAX, 1800).is_ok());
}

#[test]
fn activity_exactly_at_timeout_is_not_expired() {
    let mut t = SessionTracker::new();
    t.touch(5, 1000);
    // the gap equals the timeout: not strictly greater, so still live
    assert!(t.check_and_refresh(5, 1000 + 1800, 1800).is_ok());
}

#[test]
fn default_session_timeout_is_thirty_minutes() {
    assert_eq!(DEFAULT_SESSION_TIMEOUT_SECS, 30 * 60);
}

#[test]
fn budget_admits_three_then_denies_fourth() {
    let mut l = RateLimiter::new(3, 60);
    let key = || String::from("10.0.0.1");
    let t0: u64 = 50_000;
    assert!(l.check(key(), t0).is_ok());
    assert!(l.check(key(), t0 + 10).is_ok());
    assert!(l.check(key(), t0 + 20).is_ok());
    assert!(matches!(
        l.check(key(), t0 + 30),
        Err(RateLimited::TooManyRequests)
    ));
}

#[test]
fn admission_resumes_after_stamps_age_out() {
    let mut l = RateLimiter::new(3, 60);
    let key = || String::from("10.0.0.1");
    let t0: u64 = 50_000;
    for i in 0..3 {
        assert!(l.check(key(), t0 + i).is_ok());
    }
    assert!(l.check(key(), t0 + 3).is_err());
    // 61 seconds after the last recorded stamp, all three have aged out
    assert!(l.check(key(), t0 + 2 + 61).is_ok());
}

#[test]
fn exactly_budget_many_of_a_burst_are_admitted() {
    let mut l = RateLimiter::new(3, 60);
    let key = || String::from("burst");
    let now: u64 = 77_777;
    let mut admitted = 0;
    let mut denied = 0;
    for _ in 0..5 {
        match l.check(key(), now) {
            Ok(()) => admitted += 1,
            Err(RateLimited::TooManyRequests) => denied += 1,
        }
    }
    assert_eq!(admitted, 3);
    assert_eq!(denied, 2);
}

#[test]
fn keys_do_not_share_budgets() {
    let mut l = RateLimiter::new(1, 60);
    let now: u64 = 1_000;
    assert!(l.check(String::from("a"), now).is_ok());
    assert!(l.check(String::from("b"), now).is_ok());
    assert!(l.check(String::from("a"), now).is_err());
    assert!(l.check(String::from("b"), now).is_err());
}

#[test]
fn zero_budget_denies_everything() {
    let mut l = RateLimiter::new(0, 60);
    assert!(l.check(String::from("a"), 5).is_err());
    assert!(l.check(String::from("a"), 500).is_err());
}
