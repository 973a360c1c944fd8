use alacritty_web::rate_limit::{IpKey, RateLimiter};

fn ip(a: u8, b: u8, c: u8, d: u8) -> IpKey {
    IpKey::v4(a, b, c, d)
}

const T0: u64 = 5_000_000_000_000;

#[test]
fn allows_up_to_max_in_window() {
    let mut rl = RateLimiter::new();
    let t0 = T0;
    for _ in 0..RateLimiter::MAX_PER_WINDOW {
        assert!(rl.check_and_record_at(ip(1, 2, 3, 4), t0));
    }
    // 6th attempt within the window is rejected.
    assert!(!rl.check_and_record_at(ip(1, 2, 3, 4), t0));
}

#[test]
fn separate_ips_have_separate_budgets() {
    let mut rl = RateLimiter::new();
    let t0 = T0;
    for _ in 0..RateLimiter::MAX_PER_WINDOW {
        assert!(rl.check_and_record_at(ip(10, 0, 0, 1), t0));
    }
    // Different IP still has its full budget.
    assert!(rl.check_and_record_at(ip(10, 0, 0, 2), t0));
}

#[test]
fn window_rolls_off() {
    let mut rl = RateLimiter::new();
    let t0 = T0;
    for _ in 0..RateLimiter::MAX_PER_WINDOW {
        assert!(rl.check_and_record_at(ip(1, 2, 3, 4), t0));
    }
    assert!(!rl.check_and_record_at(ip(1, 2, 3, 4), t0));
    // After the window passes, the budget is full again.
    let later = t0 + RateLimiter::WINDOW + 1_000_000_000;
    assert!(rl.check_and_record_at(ip(1, 2, 3, 4), later));
}

#[test]
fn quiet_ips_are_evicted_to_bound_memory() {
    let mut rl = RateLimiter::new();
    let t0 = T0;
    rl.check_and_record_at(ip(1, 2, 3, 4), t0);
    rl.check_and_record_at(ip(1, 2, 3, 5), t0);
    rl.check_and_record_at(ip(1, 2, 3, 6), t0);
    assert_eq!(rl.tracked_ips(), 3);

    // After the window, a probe from a different IP evicts the stale ones.
    let later = t0 + RateLimiter::WINDOW + 1_000_000_000;
    rl.check_and_record_at(ip(9, 9, 9, 9), later);
    assert_eq!(rl.tracked_ips(), 1, "stale entries should be evicted");
}

#[test]
fn refused_connection_is_not_recorded() {
    let mut rl = RateLimiter::new();
    for k in 0..5u64 {
        assert!(rl.check_and_record_at(ip(1, 1, 1, 1), T0 + k));
    }
    // Refused attempts do not extend the window: once the first five
    // connections age out the address is allowed again.
    for k in 0..10u64 {
        assert!(!rl.check_and_record_at(ip(1, 1, 1, 1), T0 + 1_000 + k));
    }
    assert!(rl.check_and_record_at(ip(1, 1, 1, 1), T0 + RateLimiter::WINDOW + 4));
}

#[test]
fn connection_at_window_edge_is_forgotten() {
    let mut rl = RateLimiter::new();
    for _ in 0..5 {
        assert!(rl.check_and_record_at(ip(2, 2, 2, 2), T0));
    }
    // Exactly one window later the old connections no longer count.
    assert!(!rl.check_and_record_at(ip(2, 2, 2, 2), T0 + RateLimiter::WINDOW - 1));
    assert!(rl.check_and_record_at(ip(2, 2, 2, 2), T0 + RateLimiter::WINDOW));
}

#[test]
fn ipv6_and_ipv4_are_distinct_addresses() {
    let mut rl = RateLimiter::new();
    for _ in 0..5 {
        assert!(rl.check_and_record_at(IpKey::V4(7), T0));
    }
    assert!(rl.check_and_record_at(IpKey::V6(7), T0));
    assert_eq!(rl.tracked_ips(), 2);
}

#[test]
fn ipv4_key_is_big_endian_value() {
    assert_eq!(IpKey::v4(1, 2, 3, 4), IpKey::V4(0x01020304));
}

#[test]
fn custom_limit_per_window() {
    let mut rl = RateLimiter::with_max(2);
    assert!(rl.check_and_record_at(ip(3, 3, 3, 3), T0));
    assert!(rl.check_and_record_at(ip(3, 3, 3, 3), T0));
    assert!(!rl.check_and_record_at(ip(3, 3, 3, 3), T0));
    assert!(rl.check_and_record_at(ip(3, 3, 3, 3), T0 + RateLimiter::WINDOW));
}

#[test]
fn zero_limit_disables_rate_limiting() {
    let mut rl = RateLimiter::with_max(0);
    for k in 0..100u64 {
        assert!(rl.check_and_record_at(ip(4, 4, 4, 4), T0 + k));
    }
    assert_eq!(rl.tracked_ips(), 0);
}
