use std::time::Duration;

use ballot_core::rate_limit::{AppState, RateLimiter};

#[test]
fn blocks_after_limit_within_window() {
    let mut limiter = RateLimiter::new();
    let key = "k".to_string();

    assert!(limiter.check(key.clone(), 2, Duration::from_secs(30).as_nanos()));
    assert!(limiter.check(key.clone(), 2, Duration::from_secs(30).as_nanos()));
    assert!(!limiter.check(key, 2, Duration::from_secs(30).as_nanos()));
}

#[test]
fn old_attempts_leave_the_window() {
    let mut limiter = RateLimiter::new();
    let key = "k".to_string();
    assert!(limiter.check_at(key.clone(), 1, 10, 100));
    assert!(!limiter.check_at(key.clone(), 1, 10, 110));
    assert!(limiter.check_at(key.clone(), 1, 10, 111));
    assert!(!limiter.check_at(key, 1, 10, 112));
}

#[test]
fn keys_are_limited_separately() {
    let mut state = AppState::new();
    assert!(state.rate_limiter.check_at("a".to_string(), 1, 10, 0));
    assert!(state.rate_limiter.check_at("b".to_string(), 1, 10, 0));
    assert!(!state.rate_limiter.check_at("a".to_string(), 1, 10, 5));
}

#[test]
fn zero_limit_admits_nothing() {
    let mut limiter = RateLimiter::new();
    assert!(!limiter.check_at("k".to_string(), 0, 10, 0));
}
