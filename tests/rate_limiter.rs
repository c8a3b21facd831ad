use gcra_rate_limiter::{Clock, Gcra, RateLimiter, RateLimiterError, SystemClock, TestClock};

/// Seconds as the nanoseconds the clocks count.
fn secs(seconds: f64) -> u64 {
    (seconds * 1_000_000_000.0) as u64
}

#[test]
fn constructor_rejects_zero_rate() {
    let clock = TestClock::new(secs(0.0));
    let result = RateLimiter::<String, _>::new(0, 1, clock);
    assert!(result.is_err());
    assert!(matches!(result.unwrap_err(), RateLimiterError::InvalidRate));
}

#[test]
fn constructor_rejects_negative_rate() {
    let clock = TestClock::new(secs(0.0));
    let result = RateLimiter::<String, _>::new(-1, 1, clock);
    assert!(result.is_err());
    assert!(matches!(result.unwrap_err(), RateLimiterError::InvalidRate));
}

#[test]
fn constructor_rejects_negative_burst() {
    let clock = TestClock::new(secs(0.0));
    let result = RateLimiter::<String, _>::new(1, -1, clock);
    assert!(result.is_err());
    assert!(matches!(
        result.unwrap_err(),
        RateLimiterError::InvalidBurst
    ));
}

#[test]
fn constructor_accepts_valid_parameters() {
    let clock = TestClock::new(secs(0.0));
    let result = RateLimiter::<String, _>::new(10, 5, clock);
    assert!(result.is_ok());
}

#[test]
fn constructor_accepts_zero_burst() {
    let clock = TestClock::new(secs(0.0));
    let result = RateLimiter::<String, _>::new(1, 0, clock);
    assert!(result.is_ok());
}

#[test]
fn first_request_always_allowed() {
    let clock = TestClock::new(secs(0.0));
    let limiter = RateLimiter::new(1, 1, clock).unwrap();
    let result = limiter.is_allowed("client1");
    assert!(result.unwrap());
}

#[test]
fn rate_limiting_blocks_rapid_requests() {
    let clock = TestClock::new(secs(0.0));
    let limiter = RateLimiter::new(1, 0, clock.clone()).unwrap();
    let client = "client1";

    assert!(limiter.is_allowed(client).unwrap());
    assert!(!limiter.is_allowed(client).unwrap());

    clock.set(secs(0.5));
    assert!(!limiter.is_allowed(client).unwrap());

    clock.set(secs(1.0));
    assert!(limiter.is_allowed(client).unwrap());

    assert!(!limiter.is_allowed(client).unwrap());
}

#[test]
fn burst_allowance_works() {
    let clock = TestClock::new(secs(0.0));
    let limiter = RateLimiter::new(1, 3, clock.clone()).unwrap();
    let client = "client1";

    assert!(limiter.is_allowed(client).unwrap());
    assert!(limiter.is_allowed(client).unwrap());
    assert!(limiter.is_allowed(client).unwrap());
    assert!(limiter.is_allowed(client).unwrap());

    assert!(!limiter.is_allowed(client).unwrap());

    clock.set(secs(1.0));
    assert!(limiter.is_allowed(client).unwrap());

    assert!(!limiter.is_allowed(client).unwrap());
}

#[test]
fn multiple_clients_independent() {
    let clock = TestClock::new(secs(0.0));
    let limiter = RateLimiter::new(1, 0, clock.clone()).unwrap();

    assert!(limiter.is_allowed("client1").unwrap());
    assert!(limiter.is_allowed("client2").unwrap());

    assert!(!limiter.is_allowed("client1").unwrap());
    assert!(!limiter.is_allowed("client2").unwrap());

    clock.set(secs(1.0));
    assert!(limiter.is_allowed("client1").unwrap());
    assert!(limiter.is_allowed("client2").unwrap());

    assert!(!limiter.is_allowed("client1").unwrap());

    assert!(limiter.is_allowed("client3").unwrap());
}

#[test]
fn time_progression_allows_requests() {
    let clock = TestClock::new(secs(0.0));
    let limiter = RateLimiter::new(2, 0, clock.clone()).unwrap();
    let client = "client1";

    assert!(limiter.is_allowed(client).unwrap());
    assert!(!limiter.is_allowed(client).unwrap());

    clock.set(secs(0.25));
    assert!(!limiter.is_allowed(client).unwrap());

    clock.set(secs(0.5));
    assert!(limiter.is_allowed(client).unwrap());
    assert!(!limiter.is_allowed(client).unwrap());

    clock.set(secs(1.0));
    assert!(limiter.is_allowed(client).unwrap());

    clock.set(secs(10.0));
    assert!(limiter.is_allowed(client).unwrap());
}

#[test]
fn test_clock_advances_time() {
    let clock = TestClock::new(secs(5.0));
    assert_eq!(clock.now(), secs(5.0));

    clock.advance(secs(2.5));
    assert_eq!(clock.now(), secs(7.5));

    clock.set(secs(0.0));
    assert_eq!(clock.now(), secs(0.0));
}

#[test]
fn accessor_methods_work() {
    let clock = TestClock::new(secs(0.0));
    let limiter = RateLimiter::<String, _>::new(10, 5, clock).unwrap();

    assert_eq!(limiter.rate(), 10);
    assert_eq!(limiter.burst(), 5);
}

#[test]
fn nanosecond_precision() {
    let clock = TestClock::new(secs(0.0));
    let limiter = RateLimiter::new(1_000_000, 0, clock.clone()).unwrap();
    let client = "client1";

    assert!(limiter.is_allowed(client).unwrap());
    assert!(!limiter.is_allowed(client).unwrap());

    clock.advance(secs(0.000001));
    assert!(limiter.is_allowed(client).unwrap());
}

#[test]
fn first_use_at_any_time() {
    for start in [0u64, 1, secs(3.7), u64::MAX] {
        let clock = TestClock::new(start);
        let limiter = RateLimiter::new(1, 0, clock).unwrap();
        assert!(limiter.is_allowed("fresh").unwrap());
    }
}

#[test]
fn steady_spacing_boundary_is_inclusive() {
    let clock = TestClock::new(secs(100.0));
    let limiter = RateLimiter::new(4, 0, clock.clone()).unwrap();
    assert!(limiter.is_allowed(7u32).unwrap());
    clock.set(secs(100.25) - 1);
    assert!(!limiter.is_allowed(7u32).unwrap());
    clock.set(secs(100.25));
    assert!(limiter.is_allowed(7u32).unwrap());
}

#[test]
fn burst_capacity_then_denial() {
    let clock = TestClock::new(secs(2.0));
    let limiter = RateLimiter::new(5, 7, clock).unwrap();
    let admitted = (0..20).filter(|_| limiter.is_allowed("k").unwrap()).count();
    assert_eq!(admitted, 8);
}

#[test]
fn denial_for_one_key_leaves_another_alone() {
    let clock = TestClock::new(secs(0.0));
    let limiter = RateLimiter::new(1, 0, clock).unwrap();
    assert!(limiter.is_allowed("a").unwrap());
    for _ in 0..5 {
        assert!(!limiter.is_allowed("a").unwrap());
    }
    assert!(limiter.is_allowed("b").unwrap());
    assert!(!limiter.is_allowed("b").unwrap());
}

#[test]
fn derived_constants_in_nanoseconds() {
    let clock = TestClock::new(0);
    let limiter = RateLimiter::<u64, _>::new(3, 2, clock).unwrap();
    assert_eq!(limiter.increment_nanos(), 333_333_333);
    assert_eq!(limiter.tolerance_nanos(), 666_666_666);
    assert_eq!(limiter.rate(), 3);
    assert_eq!(limiter.burst(), 2);
}

#[test]
fn gcra_constants_and_decisions() {
    let g = Gcra::new(2, 1);
    assert_eq!(g.increment, 500_000_000);
    assert_eq!(g.tolerance, 500_000_000);
    assert_eq!(g.check(10, None), (true, 500_000_010));
    assert_eq!(g.check(0, Some(1_000_000_000)), (false, 1_000_000_000));
    assert_eq!(g.check(500_000_000, Some(1_000_000_000)), (true, 1_500_000_000));
    assert!(g.conforms(5, 5));
    assert_eq!(g.next_tat(7, 3), 500_000_007);
}

#[test]
fn gcra_settle_reports_what_it_saw() {
    let g = Gcra::new(1, 0);
    let mut tat = 2_000_000_000u64;
    let mut seen = None;
    g.settle(&mut tat, 1_000_000_000, &mut seen);
    assert_eq!((tat, seen), (2_000_000_000, Some(2_000_000_000)));
    g.settle(&mut tat, 2_000_000_000, &mut seen);
    assert_eq!((tat, seen), (3_000_000_000, Some(2_000_000_000)));
}

#[test]
fn gcra_first_tat_is_one_increment_ahead() {
    let g = Gcra::new(4, 2);
    assert_eq!(g.first_tat(1_000), 250_001_000);
    assert_eq!(g.first_tat(1_000), g.check(1_000, None).1);
    assert_eq!(Gcra::new(1, 0).first_tat(u64::MAX - 3), u64::MAX);
}

#[test]
fn very_high_rate_never_limits() {
    let clock = TestClock::new(secs(1.0));
    let limiter = RateLimiter::new(2_000_000_000, 0, clock).unwrap();
    assert_eq!(limiter.increment_nanos(), 0);
    for _ in 0..10 {
        assert!(limiter.is_allowed("k").unwrap());
    }
}

#[test]
fn huge_burst_saturates_tolerance() {
    let clock = TestClock::new(0);
    let limiter = RateLimiter::new(1, i64::MAX, clock).unwrap();
    assert_eq!(limiter.tolerance_nanos(), u64::MAX);
    for _ in 0..10 {
        assert!(limiter.is_allowed("k").unwrap());
    }
}

#[test]
fn tat_saturates_at_the_end_of_time() {
    let clock = TestClock::new(u64::MAX - 10);
    let limiter = RateLimiter::new(1, 0, clock.clone()).unwrap();
    assert!(limiter.is_allowed("k").unwrap());
    assert!(!limiter.is_allowed("k").unwrap());
    clock.set(u64::MAX);
    assert!(limiter.is_allowed("k").unwrap());
}

#[test]
fn error_messages() {
    assert_eq!(RateLimiterError::InvalidRate.message(), "Rate must be positive");
    assert_eq!(RateLimiterError::InvalidBurst.message(), "Burst must be non-negative");
}

#[test]
fn system_clock_limiter() {
    let limiter = RateLimiter::<&str, SystemClock>::with_system_clock(1, 0).unwrap();
    assert!(SystemClock.now() > 0);
    assert!(limiter.is_allowed("k").unwrap());
    assert!(!limiter.is_allowed("k").unwrap());
    assert!(matches!(
        RateLimiter::<&str, SystemClock>::with_system_clock(0, 0),
        Err(RateLimiterError::InvalidRate)
    ));
}
