use llm_gateway::auth::{ApiKeyRole, ValidatedApiKey};
use llm_gateway::rate_limit::{RateLimiter, TokenBucket, UNITS_PER_TOKEN};

#[test]
fn two_per_minute_scenario() {
    let mut l = RateLimiter::new(2);
    assert!(l.check_key("k", 1000));
    assert!(l.check_key("k", 1000));
    assert!(!l.check_key("k", 1000));
    assert!(l.check_key("k", 31000));
    assert!(!l.check_key("k", 31000));
}

#[test]
fn keys_have_separate_buckets() {
    let mut l = RateLimiter::new(1);
    assert!(l.check_key("a", 0));
    assert!(!l.check_key("a", 0));
    assert!(l.check_key("b", 0));
}

#[test]
fn exactly_one_token_admits() {
    let mut b = TokenBucket { tokens: UNITS_PER_TOKEN, last_updated: 5, capacity: 10 * UNITS_PER_TOKEN, refill_rate: 10 };
    assert!(b.try_consume(5));
    assert_eq!(b.tokens, 0);
}

#[test]
fn just_under_one_token_denies() {
    let mut b = TokenBucket { tokens: UNITS_PER_TOKEN - 1, last_updated: 5, capacity: 10 * UNITS_PER_TOKEN, refill_rate: 10 };
    assert!(!b.try_consume(5));
    assert_eq!(b.tokens, UNITS_PER_TOKEN - 1);
    assert_eq!(b.last_updated, 5);
}

#[test]
fn refill_is_capped_and_time_updated() {
    let mut b = TokenBucket::new(3, 0);
    assert_eq!(b.capacity, 3 * UNITS_PER_TOKEN);
    assert!(b.try_consume(1_000_000));
    assert_eq!(b.tokens, 2 * UNITS_PER_TOKEN);
    assert_eq!(b.last_updated, 1_000_000);
    assert!(b.tokens <= b.capacity);
}

#[test]
fn clock_going_back_refills_nothing() {
    let mut b = TokenBucket { tokens: 0, last_updated: 100, capacity: UNITS_PER_TOKEN, refill_rate: 1 };
    assert!(!b.try_consume(50));
    assert_eq!(b.tokens, 0);
    assert_eq!(b.last_updated, 50);
}

#[test]
fn admissions_stay_within_capacity_and_refill() {
    let mut l = RateLimiter::new(60);
    let mut n: u64 = 0;
    for t in 0..10_000u64 {
        if l.check_key("k", t) {
            n += 1;
        }
    }
    // capacity 60 tokens plus 9.999 s at one token a second
    assert!(n <= 60 + 9);
    assert!(n >= 60);
}

#[test]
fn unauthenticated_requests_pass() {
    let mut l = RateLimiter::new(0);
    assert!(l.allow_request(None, 0));
    let c = ValidatedApiKey { key: "k".to_string(), role: ApiKeyRole::User };
    assert!(!l.allow_request(Some(&c), 0));
}

#[test]
fn huge_limits_do_not_overflow() {
    let mut b = TokenBucket::new(u64::MAX, 0);
    assert!(b.try_consume(u64::MAX));
    assert_eq!(b.tokens, b.capacity - UNITS_PER_TOKEN);
}
