use crunchyroll_stats::rate_limit::{
    FailureWindow, Origin, RateLimiter, CLEANUP_INTERVAL, MAX_FAILURES, WINDOW,
};

const ORIGIN: Origin = Origin::V4(0xc0a8_0001);
const OTHER: Origin = Origin::V6(0x2001_0db8_0000_0000_0000_0000_0000_0001);

#[test]
fn policy_constants() {
    assert_eq!(MAX_FAILURES, 5);
    assert_eq!(WINDOW, 15 * 60 * 1_000_000_000);
    assert_eq!(CLEANUP_INTERVAL, 5 * 60 * 1_000_000_000);
}

#[test]
fn unknown_origin_is_not_blocked() {
    let limiter = RateLimiter::new();
    assert!(!limiter.is_blocked_at(ORIGIN, 0));
    assert!(!limiter.is_blocked(ORIGIN));
    assert!(limiter.window_of(ORIGIN).is_none());
}

#[test]
fn blocked_exactly_on_the_fifth_failure() {
    let mut limiter = RateLimiter::new();
    for i in 0..4u128 {
        limiter.record_failure_at(ORIGIN, 100 + i);
        assert!(!limiter.is_blocked_at(ORIGIN, 100 + i));
        assert_eq!(limiter.window_of(ORIGIN).unwrap().failures, (i + 1) as u32);
    }
    limiter.record_failure_at(ORIGIN, 104);
    assert!(limiter.is_blocked_at(ORIGIN, 104));
    assert_eq!(limiter.window_of(ORIGIN).unwrap().failures, 5);
    assert_eq!(limiter.window_of(ORIGIN).unwrap().window_start, 100);
    assert!(!limiter.is_blocked_at(OTHER, 104));
}

#[test]
fn sixth_failure_keeps_blocking() {
    let mut limiter = RateLimiter::new();
    for i in 0..6u128 {
        limiter.record_failure_at(ORIGIN, i);
    }
    assert_eq!(limiter.window_of(ORIGIN).unwrap().failures, 6);
    assert!(limiter.is_blocked_at(ORIGIN, 6));
}

#[test]
fn success_clears_the_origin() {
    let mut limiter = RateLimiter::new();
    for i in 0..5u128 {
        limiter.record_failure_at(ORIGIN, i);
    }
    assert!(limiter.is_blocked_at(ORIGIN, 5));
    limiter.record_success(ORIGIN);
    assert!(!limiter.is_blocked_at(ORIGIN, 5));
    assert!(limiter.window_of(ORIGIN).is_none());
    limiter.record_failure_at(ORIGIN, 6);
    assert_eq!(limiter.window_of(ORIGIN).unwrap().failures, 1);
}

#[test]
fn success_of_unknown_origin_changes_nothing() {
    let mut limiter = RateLimiter::new();
    limiter.record_failure_at(OTHER, 0);
    limiter.record_success(ORIGIN);
    assert_eq!(limiter.window_of(OTHER).unwrap().failures, 1);
}

#[test]
fn block_ends_when_the_window_has_elapsed() {
    let mut limiter = RateLimiter::new();
    for i in 0..5u128 {
        limiter.record_failure_at(ORIGIN, 10 + i);
    }
    assert!(limiter.is_blocked_at(ORIGIN, 10 + WINDOW - 1));
    assert!(!limiter.is_blocked_at(ORIGIN, 10 + WINDOW));
    assert!(!limiter.is_blocked_at(ORIGIN, 10 + WINDOW + 1));
}

#[test]
fn failure_after_the_window_starts_at_one() {
    let mut limiter = RateLimiter::new();
    for i in 0..5u128 {
        limiter.record_failure_at(ORIGIN, i);
    }
    limiter.record_failure_at(ORIGIN, WINDOW);
    let w = limiter.window_of(ORIGIN).unwrap();
    assert_eq!(w.failures, 1);
    assert_eq!(w.window_start, WINDOW);
    assert!(!limiter.is_blocked_at(ORIGIN, WINDOW));
}

#[test]
fn failure_just_inside_the_window_accumulates() {
    let mut limiter = RateLimiter::new();
    limiter.record_failure_at(ORIGIN, 0);
    limiter.record_failure_at(ORIGIN, WINDOW - 1);
    let w = limiter.window_of(ORIGIN).unwrap();
    assert_eq!(w.failures, 2);
    assert_eq!(w.window_start, 0);
}

#[test]
fn window_liveness() {
    let w = FailureWindow { failures: 3, window_start: 50 };
    assert!(w.is_live(50));
    assert!(w.is_live(49 + WINDOW));
    assert!(!w.is_live(50 + WINDOW));
    assert!(w.is_live(0));
}

#[test]
fn purge_drops_only_expired_windows() {
    let mut limiter = RateLimiter::new();
    limiter.record_failure_at(ORIGIN, 0);
    limiter.record_failure_at(OTHER, WINDOW / 2);
    limiter.purge_expired_at(WINDOW);
    assert!(limiter.window_of(ORIGIN).is_none());
    assert_eq!(limiter.window_of(OTHER).unwrap().failures, 1);
    limiter.purge_expired_at(WINDOW / 2 + WINDOW - 1);
    assert!(limiter.window_of(OTHER).is_some());
    limiter.purge_expired_at(WINDOW / 2 + WINDOW);
    assert!(limiter.window_of(OTHER).is_none());
}

#[test]
fn live_clock_counts_failures() {
    let mut limiter = RateLimiter::new();
    for _ in 0..4 {
        limiter.record_failure(ORIGIN);
        assert!(!limiter.is_blocked(ORIGIN));
    }
    limiter.record_failure(ORIGIN);
    assert!(limiter.is_blocked(ORIGIN));
    limiter.purge_expired();
    assert!(limiter.is_blocked(ORIGIN));
    limiter.record_success(ORIGIN);
    assert!(!limiter.is_blocked(ORIGIN));
}

#[test]
fn an_ipv4_address_and_its_ipv6_mapping_are_different_origins() {
    let mut limiter = RateLimiter::new();
    let v4 = Origin::V4(0xc0a8_0001);
    let mapped = Origin::V6(0x0000_0000_0000_0000_0000_ffff_c0a8_0001);
    let same_bits = Origin::V6(0xc0a8_0001);
    for i in 0..5u128 {
        limiter.record_failure_at(v4, i);
    }
    assert!(limiter.is_blocked_at(v4, 5));
    assert!(!limiter.is_blocked_at(mapped, 5));
    assert!(!limiter.is_blocked_at(same_bits, 5));
    limiter.record_failure_at(same_bits, 5);
    assert_eq!(limiter.window_of(same_bits).unwrap().failures, 1);
    assert_eq!(limiter.window_of(v4).unwrap().failures, 5);
    limiter.record_success(same_bits);
    assert!(limiter.is_blocked_at(v4, 6));
    assert_ne!(v4, same_bits);
}
