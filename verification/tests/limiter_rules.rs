use std::sync::Mutex;
use std::time::Duration;

use youshallnotpass::{Error, RateLimiter};

const SECOND: u64 = 1_000_000_000;
const START: u64 = 1_000_000 * SECOND;

#[test]
fn key_without_a_policy_is_always_admitted() {
    let now = Mutex::new(START);
    let clock = || *now.lock().unwrap();
    let limiter = RateLimiter::with_timer(&clock)
        .limit("A", 1, Duration::from_secs(1))
        .limit("B", 0, Duration::from_secs(1))
        .done();

    assert_eq!(limiter.consume("A", 1), Ok(()));
    assert_eq!(limiter.consume("A", 1), Err(Error::RetryAfter(Duration::from_secs(1))));
    assert_eq!(limiter.consume("B", 1), Err(Error::Blocked));

    for attempt in 0..1000usize {
        assert_eq!(limiter.consume("C", 1), Ok(()));
        assert_eq!(limiter.consume("", attempt), Ok(()));
        assert_eq!(limiter.consume("a", usize::MAX), Ok(()));
    }
    assert_eq!(limiter.consume("A", 1), Err(Error::RetryAfter(Duration::from_secs(1))));
}

#[test]
fn key_without_a_policy_needs_no_clock() {
    let reads = Mutex::new(0u32);
    let clock = || {
        *reads.lock().unwrap() += 1;
        START
    };
    let limiter = RateLimiter::with_timer(&clock).limit(1u32, 1, Duration::from_secs(1)).done();

    assert_eq!(limiter.consume(2, 1), Ok(()));
    assert_eq!(limiter.consume(3, 100), Ok(()));
    assert_eq!(*reads.lock().unwrap(), 0);
    assert_eq!(limiter.consume(1, 1), Ok(()));
    assert_eq!(*reads.lock().unwrap(), 1);
}

#[test]
fn limiter_without_policies_admits_everything() {
    let limiter = RateLimiter::<u64, _>::configure().done();
    for key in 0..100u64 {
        assert_eq!(limiter.consume(key, key as usize), Ok(()));
    }
}

#[test]
fn last_registration_of_a_key_wins() {
    let clock = || START;
    let limiter = RateLimiter::with_timer(&clock)
        .limit("A", 1, Duration::from_secs(1))
        .limit("B", 2, Duration::from_secs(1))
        .limit("A", 4, Duration::from_secs(2))
        .done();

    for _ in 0..4 {
        assert_eq!(limiter.consume("A", 1), Ok(()));
    }
    assert_eq!(limiter.consume("A", 1), Err(Error::RetryAfter(Duration::from_millis(500))));
    assert_eq!(limiter.consume("B", 2), Ok(()));
    assert_eq!(limiter.consume("B", 1), Err(Error::RetryAfter(Duration::from_millis(500))));
}

#[test]
fn later_registration_can_block_a_key() {
    let clock = || START;
    let limiter = RateLimiter::with_timer(&clock)
        .limit(7u8, 10, Duration::from_secs(1))
        .limit(7u8, 0, Duration::from_secs(1))
        .done();
    assert_eq!(limiter.consume(7, 1), Err(Error::Blocked));

    let limiter = RateLimiter::with_timer(&clock)
        .limit(7u8, 0, Duration::from_secs(1))
        .limit(7u8, 1, Duration::from_secs(1))
        .done();
    assert_eq!(limiter.consume(7, 1), Ok(()));
    assert_eq!(limiter.consume(7, 1), Err(Error::RetryAfter(Duration::from_secs(1))));
}

#[test]
fn keys_do_not_touch_each_other() {
    let now = Mutex::new(START);
    let clock = || *now.lock().unwrap();
    let limiter = RateLimiter::with_timer(&clock)
        .limit(String::from("left"), 2, Duration::from_secs(1))
        .limit(String::from("right"), 2, Duration::from_secs(1))
        .done();

    assert_eq!(limiter.consume(String::from("left"), 2), Ok(()));
    assert_eq!(
        limiter.consume(String::from("left"), 1),
        Err(Error::RetryAfter(Duration::from_millis(500)))
    );
    assert_eq!(limiter.consume(String::from("right"), 1), Ok(()));
    assert_eq!(limiter.consume(String::from("right"), 1), Ok(()));
    assert_eq!(
        limiter.consume(String::from("right"), 1),
        Err(Error::RetryAfter(Duration::from_millis(500)))
    );

    *now.lock().unwrap() += SECOND / 2;
    assert_eq!(limiter.consume(String::from("left"), 1), Ok(()));
    assert_eq!(limiter.consume(String::from("right"), 1), Ok(()));
    assert_eq!(
        limiter.consume(String::from("right"), 2),
        Err(Error::RetryAfter(Duration::from_secs(1)))
    );
}

#[test]
fn blocked_key_stays_blocked_while_others_run() {
    let now = Mutex::new(START);
    let clock = || *now.lock().unwrap();
    let limiter = RateLimiter::with_timer(&clock)
        .limit(1i32, 0, Duration::from_secs(5))
        .limit(2i32, 5, Duration::ZERO)
        .limit(3i32, 1, Duration::from_secs(5))
        .done();

    for round in 0..50u64 {
        assert_eq!(limiter.consume(1, 1), Err(Error::Blocked));
        assert_eq!(limiter.consume(2, 1), Err(Error::Blocked));
        assert_eq!(limiter.consume(3, 1), Ok(()));
        assert_eq!(limiter.consume(3, 1), Err(Error::RetryAfter(Duration::from_secs(5))));
        *now.lock().unwrap() += (5 + round) * SECOND;
    }
}

#[test]
fn limiter_on_the_monotonic_clock_starts_full() {
    let limiter = RateLimiter::configure().limit('x', 3, Duration::from_secs(3600)).done();

    assert_eq!(limiter.consume('x', 3), Ok(()));
    assert!(matches!(limiter.consume('x', 1), Err(Error::RetryAfter(_))));
    assert_eq!(limiter.consume('y', 1), Ok(()));
}

#[test]
fn limiter_reports_the_policy_of_a_key() {
    let clock = || START;
    let limiter = RateLimiter::with_timer(&clock)
        .limit("A", 2, Duration::from_secs(1))
        .limit("B", 0, Duration::from_secs(1))
        .limit("A", 3, Duration::from_secs(1))
        .done();

    let policy = limiter.policy(&"A").unwrap();
    assert_eq!(policy.cost_per_token, 333_333_333);
    assert_eq!(policy.interval, 1_000_000_000);
    assert_eq!(limiter.policy(&"B").unwrap().cost_per_token, 0);
    assert!(limiter.policy(&"C").is_none());
}
