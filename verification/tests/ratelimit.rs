use conduit::clock::MonoClock;
use conduit::ratelimit::{RateLimiter, MINUTE};

#[test]
fn limit_is_kept_per_token() {
    let mut l = RateLimiter::new(2);
    assert!(l.check_and_record_at(1, 10, 10).is_ok());
    assert!(l.check_and_record_at(1, 20, 20).is_ok());
    assert_eq!(l.check_and_record_at(1, 30, 30).unwrap_err(), "rate limit exceeded: 2/min");
    assert!(l.check_and_record_at(2, 30, 30).is_ok());
}

#[test]
fn requests_age_out_after_a_minute() {
    let mut l = RateLimiter::new(1);
    assert!(l.check_and_record_at(1, 10, 10).is_ok());
    assert!(l.check_and_record_at(1, 10 + MINUTE, 10 + MINUTE).is_err());
    assert!(l.check_and_record_at(1, 11 + MINUTE, 11 + MINUTE).is_ok());
}

#[test]
fn refused_requests_do_not_count() {
    let mut l = RateLimiter::new(1);
    assert!(l.check_and_record_at(1, 0, 0).is_ok());
    for t in 1..50u128 {
        assert!(l.check_and_record_at(1, t, t).is_err());
    }
    assert!(l.check_and_record_at(1, MINUTE + 1, MINUTE + 1).is_ok());
}

#[test]
fn zero_is_no_limit() {
    let mut l = RateLimiter::new(0);
    for _ in 0..1000 {
        assert!(l.check_and_record(1).is_ok());
    }
}

#[test]
fn limit_applies_to_the_clock() {
    let mut l = RateLimiter::new(3);
    for _ in 0..3 {
        assert!(l.check_and_record(1).is_ok());
    }
    assert!(l.check_and_record(1).is_err());
}

#[test]
fn clock_never_runs_back() {
    let mut c = MonoClock::new();
    let mut last = 0u128;
    for _ in 0..1000 {
        let now = c.read();
        assert!(now >= last);
        last = now;
    }
    assert!(last > 0);
}
