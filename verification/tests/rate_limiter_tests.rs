use persona_bot::rate_limiter::RateLimiter;

const TEST_BOT: &str = "test_bot";

#[test]
fn test_rate_limiter_allows_under_limit() {
    let mut limiter = RateLimiter::new(3, 1000);

    assert!(limiter.check_rate_limit(TEST_BOT, "user1", 0));
    assert!(limiter.check_rate_limit(TEST_BOT, "user1", 1));
    assert!(limiter.check_rate_limit(TEST_BOT, "user1", 2));
}

#[test]
fn test_rate_limiter_blocks_over_limit() {
    let mut limiter = RateLimiter::new(2, 1000);

    assert!(limiter.check_rate_limit(TEST_BOT, "user1", 0));
    assert!(limiter.check_rate_limit(TEST_BOT, "user1", 1));
    assert!(!limiter.check_rate_limit(TEST_BOT, "user1", 2));
}

#[test]
fn test_rate_limiter_resets_after_window() {
    let mut limiter = RateLimiter::new(1, 100);

    assert!(limiter.check_rate_limit(TEST_BOT, "user1", 0));
    assert!(!limiter.check_rate_limit(TEST_BOT, "user1", 1));

    // 150 ms later the first request has left the 100 ms window.
    assert!(limiter.check_rate_limit(TEST_BOT, "user1", 151));
}

#[test]
fn test_rate_limiter_per_user() {
    let mut limiter = RateLimiter::new(1, 1000);

    assert!(limiter.check_rate_limit(TEST_BOT, "user1", 0));
    assert!(limiter.check_rate_limit(TEST_BOT, "user2", 1));
    assert!(!limiter.check_rate_limit(TEST_BOT, "user1", 2));
    assert!(!limiter.check_rate_limit(TEST_BOT, "user2", 3));
}

#[test]
fn test_rate_limiter_per_bot() {
    let mut limiter = RateLimiter::new(1, 1000);

    assert!(limiter.check_rate_limit("bot1", "user1", 0));
    assert!(!limiter.check_rate_limit("bot1", "user1", 1));

    assert!(limiter.check_rate_limit("bot2", "user1", 2));
    assert!(!limiter.check_rate_limit("bot2", "user1", 3));
}

#[test]
fn test_rate_limiter_bot_isolation() {
    let mut limiter = RateLimiter::new(2, 1000);

    assert!(limiter.check_rate_limit("bot1", "user1", 0));
    assert!(limiter.check_rate_limit("bot1", "user1", 1));
    assert!(!limiter.check_rate_limit("bot1", "user1", 2));

    assert!(limiter.check_rate_limit("bot2", "user1", 3));
    assert!(limiter.check_rate_limit("bot2", "user1", 4));
    assert!(!limiter.check_rate_limit("bot2", "user1", 5));

    assert!(limiter.check_rate_limit("bot1", "user2", 6));
    assert!(limiter.check_rate_limit("bot1", "user2", 7));
    assert!(!limiter.check_rate_limit("bot1", "user2", 8));
}

#[test]
fn test_rate_limiter_window_edge() {
    let mut limiter = RateLimiter::new(1, 100);
    assert!(limiter.check_rate_limit("b", "u", 1000));
    // Exactly one window later the old request no longer counts.
    assert!(!limiter.check_rate_limit("b", "u", 1099));
    assert!(limiter.check_rate_limit("b", "u", 1100));
}

#[test]
fn test_rate_limiter_zero_max_never_allows() {
    let mut limiter = RateLimiter::new(0, 100);
    assert!(!limiter.check_rate_limit("b", "u", 0));
    assert!(!limiter.check_rate_limit("b", "u", 10_000));
}

#[test]
fn test_wait_time() {
    let mut limiter = RateLimiter::new(1, 1000);
    assert_eq!(limiter.wait_time("b", "u", 0), 0);
    assert!(limiter.check_rate_limit("b", "u", 200));
    assert!(!limiter.check_rate_limit("b", "u", 500));
    assert_eq!(limiter.wait_time("b", "u", 500), 700);
    assert_eq!(limiter.wait_time("b", "u", 1200), 0);
    assert_eq!(limiter.wait_time("b", "other", 500), 0);
}
