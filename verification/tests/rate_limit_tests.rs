//! Rate limiting: entries, fixed and sliding windows, token buckets and keys.
//! Times are microseconds; the token refill is supplied by the caller.

use kairos_rs::middleware::rate_limit::{
    allows_request, AdvancedRateLimit, LimitStrategy, RateLimitConfig, RateLimitEntry,
    RateLimitStore, WindowType,
};

const T0: u64 = 1_000_000_000;

fn refill(tokens_bits: u64, elapsed_us: u64, per_window: u64, burst: u64, window_secs: u64) -> (bool, u64) {
    let mut tokens = f64::from_bits(tokens_bits);
    let time_passed = elapsed_us as f64 / 1_000_000.0;
    let rate = per_window as f64 / window_secs as f64;
    if tokens == 0.0 && time_passed < 0.001 {
        tokens = per_window as f64;
    }
    let max_tokens = (per_window + burst) as f64;
    tokens = (tokens + time_passed * rate).min(max_tokens);
    let allowed = tokens >= 1.0;
    if allowed {
        tokens -= 1.0;
    }
    (allowed, tokens.to_bits())
}

fn config(strategy: LimitStrategy, per_window: u64, secs: u64, burst: u64, wt: WindowType) -> RateLimitConfig {
    RateLimitConfig {
        strategy,
        requests_per_window: per_window,
        window_duration_secs: secs,
        burst_allowance: burst,
        window_type: wt,
        enable_redis: false,
        redis_key_prefix: "test".to_string(),
    }
}

#[test]
fn test_rate_limit_entry_creation() {
    let entry = RateLimitEntry::new(T0);
    assert_eq!(entry.request_count, 0);
    assert!(entry.request_times.is_empty());
    assert_eq!(f64::from_bits(entry.available_tokens_bits), 0.0);
    assert_eq!(entry.window_start, T0);
    assert_eq!(entry.last_refill, T0);
}

#[test]
fn test_fixed_window_rate_limiting() {
    let mut store = RateLimitStore::new(T0);
    let config = config(LimitStrategy::PerIP, 2, 60, 1, WindowType::FixedWindow);

    assert!(store.check_rate_limit("test_key", &config, T0, refill).unwrap());
    assert!(store.check_rate_limit("test_key", &config, T0, refill).unwrap());
    assert!(store.check_rate_limit("test_key", &config, T0, refill).unwrap());

    assert!(!store.check_rate_limit("test_key", &config, T0, refill).unwrap());
}

#[test]
fn test_fixed_window_resets_after_window() {
    let mut store = RateLimitStore::new(T0);
    let config = config(LimitStrategy::PerIP, 1, 60, 0, WindowType::FixedWindow);
    assert!(store.check_rate_limit("k", &config, T0, refill).unwrap());
    assert!(!store.check_rate_limit("k", &config, T0 + 59_000_000, refill).unwrap());
    assert!(store.check_rate_limit("k", &config, T0 + 60_000_000, refill).unwrap());
    assert!(store.check_rate_limit("other", &config, T0 + 60_000_000, refill).unwrap());
}

#[test]
fn test_sliding_window_rate_limiting() {
    let mut store = RateLimitStore::new(T0);
    let config = config(LimitStrategy::PerIP, 2, 10, 0, WindowType::SlidingWindow);
    assert!(store.check_rate_limit("k", &config, T0, refill).unwrap());
    assert!(store.check_rate_limit("k", &config, T0 + 1_000_000, refill).unwrap());
    assert!(!store.check_rate_limit("k", &config, T0 + 2_000_000, refill).unwrap());
    assert!(store.check_rate_limit("k", &config, T0 + 10_000_000, refill).unwrap());
}

#[test]
fn test_token_bucket_rate_limiting() {
    let mut store = RateLimitStore::new(T0);
    let config = config(LimitStrategy::PerIP, 10, 10, 5, WindowType::TokenBucket);

    assert!(store.check_rate_limit("bucket_test", &config, T0, refill).unwrap());
}

#[test]
fn test_token_bucket_runs_dry() {
    let mut store = RateLimitStore::new(T0);
    let config = config(LimitStrategy::PerIP, 3, 60, 0, WindowType::TokenBucket);
    for _ in 0..3 {
        assert!(store.check_rate_limit("b", &config, T0, refill).unwrap());
    }
    assert!(!store.check_rate_limit("b", &config, T0 + 2000, refill).unwrap());
}

#[test]
fn test_keys_by_strategy() {
    let per_ip = AdvancedRateLimit::new(config(LimitStrategy::PerIP, 1, 1, 0, WindowType::FixedWindow), T0);
    assert_eq!(per_ip.extract_key(Some("1.2.3.4"), None, "/x"), Ok("ip:1.2.3.4".to_string()));
    assert_eq!(per_ip.extract_key(None, None, "/x"), Ok("ip:unknown".to_string()));

    let per_user =
        AdvancedRateLimit::new(config(LimitStrategy::PerUser, 1, 1, 0, WindowType::FixedWindow), T0);
    assert_eq!(per_user.extract_key(None, Some("alice"), "/x"), Ok("user:alice".to_string()));
    assert_eq!(
        per_user.extract_key(None, None, "/x"),
        Err("No user claims found for per-user rate limiting".to_string())
    );

    let per_route =
        AdvancedRateLimit::new(config(LimitStrategy::PerRoute, 1, 1, 0, WindowType::FixedWindow), T0);
    assert_eq!(per_route.extract_key(None, None, "/api"), Ok("route:/api".to_string()));

    let ip_route = AdvancedRateLimit::new(
        config(LimitStrategy::PerIPAndRoute, 1, 1, 0, WindowType::FixedWindow),
        T0,
    );
    assert_eq!(ip_route.extract_key(Some("h"), None, "/p"), Ok("ip_route:h:/p".to_string()));

    let user_route = AdvancedRateLimit::new(
        config(LimitStrategy::PerUserAndRoute, 1, 1, 0, WindowType::FixedWindow),
        T0,
    );
    assert_eq!(
        user_route.extract_key(None, None, "/p"),
        Err("No user claims found for per-user-route rate limiting".to_string())
    );

    let composite = AdvancedRateLimit::new(
        config(
            LimitStrategy::Composite(vec![config(LimitStrategy::PerRoute, 1, 1, 0, WindowType::FixedWindow)]),
            1,
            1,
            0,
            WindowType::FixedWindow,
        ),
        T0,
    );
    assert_eq!(composite.extract_key(None, None, "/c"), Ok("route:/c".to_string()));

    let empty = AdvancedRateLimit::new(
        config(LimitStrategy::Composite(vec![]), 1, 1, 0, WindowType::FixedWindow),
        T0,
    );
    assert_eq!(
        empty.extract_key(None, None, "/c"),
        Err("No configurations in composite strategy".to_string())
    );
}

#[test]
fn test_advanced_check_and_verdicts() {
    let mut limiter =
        AdvancedRateLimit::new(config(LimitStrategy::PerIP, 1, 60, 0, WindowType::FixedWindow), T0);
    let first = limiter.check("ip:a", T0, refill);
    let second = limiter.check("ip:a", T0, refill);
    assert_eq!(first, Ok(true));
    assert_eq!(second, Ok(false));
    assert!(allows_request(&first));
    assert!(!allows_request(&second));
    assert!(allows_request(&Err("no key".to_string())));
}
