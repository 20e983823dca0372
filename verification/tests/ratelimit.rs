use tile::ratelimit::RateLimiter;

const SECOND: u64 = 1_000_000_000;
const MILLI: u64 = 1_000_000;

fn clock() -> u64 {
    std::time::SystemTime::now()
        .duration_since(std::time::UNIX_EPOCH)
        .map(|d| d.as_nanos() as u64)
        .unwrap_or(0)
}

#[test]
fn first_call_is_always_allowed() {
    let mut limiter = RateLimiter::new(5 * SECOND);
    assert!(limiter.allow_at(clock()));
}

#[test]
fn a_second_immediate_call_is_blocked() {
    let mut limiter = RateLimiter::new(5 * SECOND);
    let t0 = clock();
    assert!(limiter.allow_at(t0));
    assert!(!limiter.allow_at(t0 + 100 * MILLI));
}

#[test]
fn a_call_after_the_cooldown_is_allowed_again() {
    let mut limiter = RateLimiter::new(5 * SECOND);
    let t0 = clock();
    assert!(limiter.allow_at(t0));
    assert!(!limiter.allow_at(t0 + 4 * SECOND));
    assert!(limiter.allow_at(t0 + 5 * SECOND));
}

#[test]
fn each_allowed_call_re_arms_the_window() {
    let mut limiter = RateLimiter::new(2 * SECOND);
    let t0 = clock();
    assert!(limiter.allow_at(t0));
    assert!(limiter.allow_at(t0 + 2 * SECOND));
    assert!(!limiter.allow_at(t0 + 3 * SECOND));
}

#[test]
fn a_clock_reading_older_than_the_last_call_counts_as_no_time() {
    let mut limiter = RateLimiter::new(SECOND);
    assert!(limiter.allow_at(10 * SECOND));
    assert!(!limiter.allow_at(2 * SECOND));
    assert_eq!(limiter.last, Some(10 * SECOND));
}

#[test]
fn a_zero_cooldown_never_blocks() {
    let mut limiter = RateLimiter::new(0);
    assert!(limiter.allow_at(7));
    assert!(limiter.allow_at(7));
}
