use crawler::error::CrawlerError;
use crawler::fetch::{FetchGate, RetryAction};
use crawler::limiter::{get_rate_limiter, RateLimiter};

#[test]
fn test_rate_limiter_initial_tokens() {
    let mut limiter = RateLimiter::new(2, 1);
    assert!(limiter.check_tokens().is_ok());
    assert!(limiter.check_tokens().is_ok());
    assert!(limiter.check_tokens().is_err());
}

#[test]
fn test_rate_limiter_refill() {
    let mut limiter = RateLimiter::new(2, 1);
    let t = 1_700_000_000u64;
    assert!(limiter.check_tokens_at(t).is_ok());
    assert!(limiter.check_tokens_at(t).is_ok());
    assert!(limiter.check_tokens_at(t).is_err());

    assert!(limiter.check_tokens_at(t + 1).is_ok());

    assert!(limiter.check_tokens_at(t + 2).is_ok());
    assert!(limiter.check_tokens_at(t + 2).is_err());
}

#[test]
fn test_rate_limiter_partial_refill() {
    let mut limiter = RateLimiter::new(3, 1);
    let t = 1_700_000_000u64;
    assert!(limiter.check_tokens_at(t).is_ok());
    assert!(limiter.check_tokens_at(t).is_ok());
    assert!(limiter.check_tokens_at(t).is_ok());
    assert!(limiter.check_tokens_at(t).is_err());

    assert!(limiter.check_tokens_at(t + 2).is_ok());
    assert!(limiter.check_tokens_at(t + 2).is_ok());
    assert!(limiter.check_tokens_at(t + 2).is_err());
}

#[test]
fn test_rate_limiter_does_not_exceed_capacity() {
    let mut limiter = RateLimiter::new(5, 2);
    let t = 1_700_000_000u64;
    for _ in 0..5 {
        assert!(limiter.check_tokens_at(t).is_ok());
    }
    assert!(limiter.check_tokens_at(t).is_err());

    for _ in 0..5 {
        assert!(limiter.check_tokens_at(t + 5).is_ok());
    }
    assert!(limiter.check_tokens_at(t + 5).is_err());
}

#[test]
fn exhaustion_then_refill_after_one_second() {
    let mut limiter = RateLimiter::new(2, 1);
    let t = 1_000u64;
    assert!(limiter.check_tokens_at(t).is_ok());
    assert!(limiter.check_tokens_at(t).is_ok());
    assert!(matches!(
        limiter.check_tokens_at(t),
        Err(CrawlerError::RateLimitError(_))
    ));
    assert!(limiter.check_tokens_at(t + 1).is_ok());
}

#[test]
fn tokens_stay_within_capacity_over_time() {
    let mut limiter = RateLimiter::new(3, 2);
    let times = [0u64, 0, 5, 5, 5, 5, 6, 100, 100, 99, 101];
    for t in times {
        let _ = limiter.check_tokens_at(t);
        assert!(limiter.tokens() <= limiter.capacity());
    }
}

#[test]
fn refused_check_suggests_wait_hint() {
    let mut limiter = RateLimiter::new(1, 3);
    assert!(limiter.check_tokens_at(10).is_ok());
    match limiter.check_tokens_at(10) {
        Err(CrawlerError::RateLimitError(w)) => assert_eq!(w, 0),
        other => panic!("unexpected {:?}", other),
    }
    let mut empty = RateLimiter::new(0, 4);
    match empty.check_tokens_at(7) {
        Err(CrawlerError::RateLimitError(w)) => assert_eq!(w, 1),
        other => panic!("unexpected {:?}", other),
    }
}

#[test]
fn clock_going_back_credits_nothing() {
    let mut limiter = RateLimiter::new(1, 1);
    assert!(limiter.check_tokens_at(50).is_ok());
    assert!(limiter.check_tokens_at(40).is_err());
    assert_eq!(limiter.tokens(), 0);
}

#[test]
fn default_limiter_holds_one_hundred_tokens() {
    let mut limiter = get_rate_limiter();
    assert_eq!(limiter.capacity(), 100);
    for _ in 0..100 {
        assert!(limiter.check_tokens_at(9).is_ok());
    }
    assert!(limiter.check_tokens_at(9).is_err());
}

#[test]
fn second_attempt_admitted_after_one_second() {
    let mut limiter = RateLimiter::new(1, 1);
    let t = 500u64;
    let mut first = FetchGate::new();
    assert!(matches!(first.step(&mut limiter, t), RetryAction::Proceed));
    let mut second = FetchGate::new();
    match second.step(&mut limiter, t) {
        RetryAction::Sleep(secs) => assert_eq!(secs, 0),
        other => panic!("unexpected {:?}", other),
    }
    assert_eq!(second.retries, 1);
    assert!(matches!(second.step(&mut limiter, t + 1), RetryAction::Proceed));
}
