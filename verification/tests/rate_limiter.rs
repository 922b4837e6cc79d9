use smartcard_core::rate_limiter::RateLimitConfig;
use smartcard_core::rate_limiter::RateLimiter;

const IP_LOCAL: u128 = 0x7F000001;
const IP_LAN: u128 = 0xC0A80101;

#[test]
fn test_rate_limiting() {
    let config = RateLimitConfig {
        max_requests: 3,
        window_ms: 60_000,
        max_connections: 2,
    };
    let mut limiter = RateLimiter::new(config);
    let now = 1_000u64;

    // First 3 requests should succeed
    assert!(limiter.check_request(IP_LOCAL, now));
    assert!(limiter.check_request(IP_LOCAL, now));
    assert!(limiter.check_request(IP_LOCAL, now));

    // 4th request should fail
    assert!(!limiter.check_request(IP_LOCAL, now));
}

#[test]
fn test_window_replenishes_tokens() {
    let config = RateLimitConfig {
        max_requests: 3,
        window_ms: 60_000,
        max_connections: 2,
    };
    let mut limiter = RateLimiter::new(config);
    let t0 = 1_000u64;
    assert!(limiter.check_request(IP_LOCAL, t0));
    assert!(limiter.check_request(IP_LOCAL, t0 + 10));
    assert!(limiter.check_request(IP_LOCAL, t0 + 20));
    // Still inside the window: refused.
    assert!(!limiter.check_request(IP_LOCAL, t0 + 59_999));
    // A full window after the last refill: the bucket is full again.
    assert!(limiter.check_request(IP_LOCAL, t0 + 60_000));
    assert!(limiter.check_request(IP_LOCAL, t0 + 60_001));
    assert!(limiter.check_request(IP_LOCAL, t0 + 60_002));
    assert!(!limiter.check_request(IP_LOCAL, t0 + 60_003));
}

#[test]
fn test_connection_limiting() {
    let config = RateLimitConfig {
        max_requests: 100,
        window_ms: 60_000,
        max_connections: 2,
    };
    let mut limiter = RateLimiter::new(config);
    let now = 5_000u64;

    // First 2 connections should succeed
    assert!(limiter.check_connection(IP_LAN, now));
    assert!(limiter.check_connection(IP_LAN, now));

    // 3rd connection should fail
    assert!(!limiter.check_connection(IP_LAN, now));

    // Release one connection
    limiter.release_connection(IP_LAN);

    // Now another connection should succeed
    assert!(limiter.check_connection(IP_LAN, now));
    // And the ceiling holds again.
    assert!(!limiter.check_connection(IP_LAN, now));
}

#[test]
fn test_release_floors_at_zero() {
    let mut limiter = RateLimiter::default_config();
    limiter.check_connection(IP_LOCAL, 0);
    limiter.release_connection(IP_LOCAL);
    limiter.release_connection(IP_LOCAL);
    limiter.release_connection(IP_LOCAL);
    assert_eq!(limiter.get_stats().total_active_connections, 0);
}

#[test]
fn test_sources_are_independent() {
    let config = RateLimitConfig {
        max_requests: 1,
        window_ms: 60_000,
        max_connections: 1,
    };
    let mut limiter = RateLimiter::new(config);
    assert!(limiter.check_request(IP_LOCAL, 0));
    assert!(!limiter.check_request(IP_LOCAL, 0));
    // A different source has its own bucket.
    assert!(limiter.check_request(IP_LAN, 0));
}

#[test]
fn test_cleanup() {
    let mut limiter = RateLimiter::default_config();
    let ip1: u128 = 0x0A000001;
    let ip2: u128 = 0x0A000002;
    let t0 = 10_000u64;

    // Create entries
    limiter.check_request(ip1, t0);
    limiter.check_connection(ip2, t0);

    assert_eq!(limiter.get_stats().tracked_ips, 2);

    // An entry with an open connection survives any sweep.
    limiter.cleanup(t0 + 100, 1);
    assert_eq!(limiter.get_stats().tracked_ips, 1);

    // Release the connection; an idle entry past the threshold goes.
    limiter.release_connection(ip2);
    limiter.cleanup(t0 + 200, 1);
    assert_eq!(limiter.get_stats().tracked_ips, 0);
}

#[test]
fn test_stats_counts() {
    let mut limiter = RateLimiter::default_config();
    limiter.check_connection(IP_LOCAL, 0);
    limiter.check_connection(IP_LOCAL, 0);
    limiter.check_connection(IP_LAN, 0);
    let stats = limiter.get_stats();
    assert_eq!(stats.tracked_ips, 2);
    assert_eq!(stats.total_active_connections, 3);
}
