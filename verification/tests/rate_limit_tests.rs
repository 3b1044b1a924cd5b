use browser_core::rate_limit::{DomainRateLimiter, DomainState, HOUR_NANOS, SECOND_NANOS};

const T0: u64 = 5 * 3_600_000_000_000;

/// max 3 per hour, 1-second interval, no jitter.
fn fast_limiter() -> DomainRateLimiter {
    DomainRateLimiter::new(3, 1, 0)
}

fn secs(n: u64) -> u128 {
    n as u128 * SECOND_NANOS as u128
}

#[test]
fn first_request_can_proceed() {
    let mut rl = fast_limiter();
    assert!(rl.can_proceed("example.com", T0));
    assert_eq!(rl.wait_time("example.com", T0), 0);
}

#[test]
fn interval_enforced_between_requests() {
    let mut rl = fast_limiter();
    rl.record_request("example.com", T0);

    // Immediately after, we should NOT be allowed to proceed.
    assert!(!rl.can_proceed("example.com", T0 + 1_000));
    let wait = rl.wait_time("example.com", T0 + 1_000);
    assert!(wait > 0, "expected positive wait, got {:?}", wait);
    assert!(wait <= secs(1));
}

#[test]
fn interval_expires_and_allows_next() {
    let mut rl = DomainRateLimiter::new(3, 0, 0); // effectively no interval
    rl.record_request("example.com", T0);
    // With 0-second interval, next request should be immediate.
    assert!(rl.can_proceed("example.com", T0 + 1_000));
}

#[test]
fn hourly_cap_enforced() {
    let mut rl = DomainRateLimiter::new(2, 0, 0);
    rl.record_request("a.com", T0);
    rl.record_request("a.com", T0 + 1_000);

    // Third request should be blocked by the hourly cap.
    assert!(!rl.can_proceed("a.com", T0 + 2_000));
    let wait = rl.wait_time("a.com", T0 + 2_000);
    // The wait should be close to 1 hour (minus tiny elapsed time).
    assert!(wait > secs(3500));
    assert_eq!(wait, HOUR_NANOS as u128 - 2_000);
}

#[test]
fn backoff_doubles_interval() {
    let mut rl = fast_limiter();
    rl.record_request("b.com", T0);

    // Record a 429: the next interval is the current one doubled.
    let next = rl.interval_for("b.com") * 2;
    rl.record_rate_limited("b.com", next);

    // The interval doubled from 1 to 2 seconds.
    let wait = rl.wait_time("b.com", T0 + 1_000);
    assert!(wait > secs(1), "expected > 1s, got {:?}", wait);
}

#[test]
fn multiple_429s_compound() {
    let mut rl = fast_limiter();
    rl.record_request("c.com", T0);
    let n1 = rl.interval_for("c.com") * 2; // 1 -> 2
    rl.record_rate_limited("c.com", n1);
    let n2 = rl.interval_for("c.com") * 2; // 2 -> 4
    rl.record_rate_limited("c.com", n2);

    let state: &DomainState = rl.domain_state("c.com").unwrap();
    assert_eq!(state.current_interval_secs, 4);
    assert_eq!(state.consecutive_429s, 2);
}

#[test]
fn success_resets_backoff() {
    let mut rl = fast_limiter();
    rl.record_request("d.com", T0);
    let n1 = rl.interval_for("d.com") * 2;
    rl.record_rate_limited("d.com", n1);
    let n2 = rl.interval_for("d.com") * 2;
    rl.record_rate_limited("d.com", n2);

    rl.record_success("d.com");

    let state = rl.domain_state("d.com").unwrap();
    assert_eq!(state.consecutive_429s, 0);
    // Interval reset to base.
    assert_eq!(state.current_interval_secs, 1);
}

#[test]
fn different_domains_independent() {
    let mut rl = DomainRateLimiter::new(3, 0, 0);
    rl.record_request("x.com", T0);
    // y.com is unaffected.
    assert!(rl.can_proceed("y.com", T0));
}

#[test]
fn extract_domain_works() {
    assert_eq!(
        DomainRateLimiter::extract_domain("https://WWW.Example.COM/path?q=1"),
        "www.example.com"
    );
    assert_eq!(DomainRateLimiter::extract_domain("http://foo.bar:8080/"), "foo.bar");
    // Fallback for garbage input.
    assert_eq!(DomainRateLimiter::extract_domain("not-a-url"), "not-a-url");
}

#[test]
fn jitter_adds_positive_duration() {
    let rl = DomainRateLimiter::new(3, 1, 60);
    let base = secs(10);
    let jittered = rl.jittered_wait(base);
    assert!(jittered >= base);
    assert!(jittered <= base + secs(60));
    assert_eq!((jittered - base) % SECOND_NANOS as u128, 0);
}

#[test]
fn jitter_draw_adds_whole_seconds() {
    let rl = DomainRateLimiter::new(3, 1, 60);
    assert_eq!(rl.wait_with_jitter(secs(10), 0), secs(10));
    assert_eq!(rl.wait_with_jitter(secs(10), 7), secs(17));
    assert_eq!(rl.wait_with_jitter(secs(10), 59), secs(69));
    let still = fast_limiter();
    assert_eq!(still.wait_with_jitter(secs(5), 3), secs(5));
}

#[test]
fn jitter_zero_range_returns_base() {
    let rl = fast_limiter(); // jitter_range = 0
    let base = secs(5);
    assert_eq!(rl.jittered_wait(base), base);
}

#[test]
fn stats_returns_tracked_domains() {
    let mut rl = DomainRateLimiter::new(3, 0, 0);
    rl.record_request("s1.com", T0);
    rl.record_request("s2.com", T0);
    let next = rl.interval_for("s2.com") * 2;
    rl.record_rate_limited("s2.com", next);

    let s = rl.stats(T0 + 500);
    assert_eq!(s.len(), 2);
    let s1 = s.iter().find(|d| d.domain == "s1.com").unwrap();
    let s2 = s.iter().find(|d| d.domain == "s2.com").unwrap();
    assert_eq!(s1.requests_this_hour, 1);
    assert!(!s1.is_backed_off);
    assert!(s2.is_backed_off);
    assert_eq!(s1.last_request_at, Some(500));
}

#[test]
fn wait_then_proceed() {
    let mut rl = DomainRateLimiter::new(100, 1, 0);
    rl.record_request("wait.com", T0);
    assert!(!rl.can_proceed("wait.com", T0));

    // Just over the interval later.
    assert!(rl.can_proceed("wait.com", T0 + 1_100_000_000));
}

#[test]
fn requests_older_than_an_hour_are_forgotten() {
    let mut rl = DomainRateLimiter::new(1, 0, 0);
    rl.record_request("old.com", T0);
    assert!(!rl.can_proceed("old.com", T0 + HOUR_NANOS - 1));
    assert!(rl.can_proceed("old.com", T0 + HOUR_NANOS));
    assert_eq!(rl.domain_state("old.com").unwrap().request_timestamps.len(), 0);
}

#[test]
fn success_on_untracked_domain_tracks_nothing() {
    let mut rl = fast_limiter();
    rl.record_success("never.com");
    assert!(rl.domain_state("never.com").is_none());
    assert_eq!(rl.stats(T0).len(), 0);
}
