use thoughtgate::rate_limiter::{AcquireOutcome, RateLimiter, RateLimiterError, TOKEN_SCALE};

// Ten tokens per second, in micro-tokens per second.
const TEN_PER_SECOND: u64 = 10 * TOKEN_SCALE;

#[test]
fn test_new_rejects_zero_rate() {
    assert_eq!(RateLimiter::new(0, 0), Err(RateLimiterError::ZeroRate));
}

#[test]
fn test_new_starts_full() {
    let limiter = RateLimiter::new(TEN_PER_SECOND, 0).unwrap();
    assert_eq!(limiter.tokens, TEN_PER_SECOND);
    assert_eq!(limiter.max_tokens, TEN_PER_SECOND);
}

#[test]
fn test_rate_limiter_allows_burst() {
    // A fresh limiter at ten per second grants ten acquires at once.
    let mut limiter = RateLimiter::new(TEN_PER_SECOND, 0).unwrap();
    for _ in 0..10 {
        assert_eq!(limiter.acquire_step(0), AcquireOutcome::Acquired);
    }
}

#[test]
fn test_rate_limiter_enforces_rate() {
    // Once drained, the next acquire must wait a tenth of a second.
    let mut limiter = RateLimiter::new(TEN_PER_SECOND, 0).unwrap();
    for _ in 0..10 {
        assert_eq!(limiter.acquire_step(0), AcquireOutcome::Acquired);
    }
    match limiter.acquire_step(0) {
        AcquireOutcome::Wait { ms } => assert!(ms >= 90),
        AcquireOutcome::Acquired => panic!("the eleventh acquire must wait"),
    }
    // After the advised wait, the acquire goes through.
    match limiter.acquire_step(0) {
        AcquireOutcome::Wait { ms } => {
            assert_eq!(ms, 100);
            assert_eq!(limiter.acquire_step(ms), AcquireOutcome::Acquired);
        }
        AcquireOutcome::Acquired => panic!("still drained"),
    }
}

#[test]
fn test_try_acquire_empty_bucket() {
    // One per second: the first try succeeds, the second finds the bucket
    // freshly drained and fails.
    let mut limiter = RateLimiter::new(TOKEN_SCALE, 0).unwrap();
    assert!(limiter.try_acquire(0));
    assert!(!limiter.try_acquire(0));
}

#[test]
fn test_token_refill() {
    // Drain ten per second, wait 200 ms: two tokens have accrued, no more.
    let mut limiter = RateLimiter::new(TEN_PER_SECOND, 0).unwrap();
    for _ in 0..10 {
        assert!(limiter.try_acquire(0));
    }
    assert!(limiter.try_acquire(200));
    assert!(limiter.try_acquire(200));
    assert!(!limiter.try_acquire(200));
}

#[test]
fn test_refill_clamps_at_capacity() {
    // However long the idle time, the bucket never exceeds its capacity.
    let mut limiter = RateLimiter::new(TEN_PER_SECOND, 0).unwrap();
    limiter.refill(3_600_000);
    assert_eq!(limiter.tokens, TEN_PER_SECOND);
    assert_eq!(limiter.last_refill, 3_600_000);
}

#[test]
fn test_clock_going_backwards_adds_nothing() {
    let mut limiter = RateLimiter::new(TEN_PER_SECOND, 1000).unwrap();
    for _ in 0..10 {
        assert!(limiter.try_acquire(1000));
    }
    assert!(!limiter.try_acquire(500));
    assert_eq!(limiter.last_refill, 1000);
}

#[test]
fn test_wait_is_exact_ceiling() {
    // Three per second, drained: a whole token takes ceil(1000000 * 1000 /
    // 3000000) = 334 ms to accrue.
    let rate = 3 * TOKEN_SCALE;
    let mut limiter = RateLimiter::new(rate, 0).unwrap();
    assert!(limiter.try_acquire(0));
    assert!(limiter.try_acquire(0));
    assert!(limiter.try_acquire(0));
    match limiter.acquire_step(0) {
        AcquireOutcome::Wait { ms } => assert_eq!(ms, 334),
        AcquireOutcome::Acquired => panic!("bucket was drained"),
    }
}

#[test]
fn test_fractional_rate_accrues() {
    // Half a token per second: after four seconds two tries succeed... the
    // bucket capacity is half a token, so even idleness grants nothing.
    let rate = TOKEN_SCALE / 2;
    let mut limiter = RateLimiter::new(rate, 0).unwrap();
    assert!(!limiter.try_acquire(0));
    assert!(!limiter.try_acquire(10_000));
}
