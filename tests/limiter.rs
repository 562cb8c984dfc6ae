use serial_perf::{
    ByteRate, Duration, Instant, LimiterState, Outcome, PollingByteRateLimiter, TimerError,
};

fn at(nanos: u64) -> Instant {
    Instant::from_nanos(nanos)
}

#[test]
fn unlimited() {
    let max_rate = ByteRate::new(10, Duration::zero());
    let mut limiter = PollingByteRateLimiter::new(max_rate, at(0));

    const COUNT: usize = 1_000_000;
    for i in 0..COUNT {
        assert!(limiter.send(at(i as u64)).unwrap())
    }
}

#[test]
fn limited() {
    let max_rate = ByteRate::new(0, Duration::from_secs(1));
    let limiter = PollingByteRateLimiter::new(max_rate, at(0));

    assert!(!limiter.can_send(at(0)))
}

#[test]
fn limit_activated() {
    const LIMIT: usize = 10;

    let max_rate = ByteRate::new(LIMIT, Duration::from_secs(1));
    let mut limiter = PollingByteRateLimiter::new(max_rate, at(0));

    for _ in 0..(LIMIT - 1) {
        assert!(limiter.send(at(0)).unwrap());
        assert!(limiter.can_send(at(0)));
    }

    assert!(!limiter.send(at(0)).unwrap());
    assert!(!limiter.can_send(at(0)));
}

#[test]
fn restart_resets_limit() {
    const LIMIT: usize = 10;

    let max_rate = ByteRate::new(LIMIT, Duration::from_secs(1));
    let mut limiter = PollingByteRateLimiter::new(max_rate, at(0));

    for _ in 0..(LIMIT - 1) {
        assert!(limiter.send(at(0)).unwrap());
        assert!(limiter.can_send(at(0)));
    }

    limiter.restart(at(0)).unwrap();

    for _ in 0..(LIMIT - 1) {
        assert!(limiter.send(at(0)).unwrap());
        assert!(limiter.can_send(at(0)));
    }

    assert!(!limiter.send(at(0)).unwrap());
    assert!(!limiter.can_send(at(0)));
}

#[test]
fn restart_on_timer() {
    const LIMIT: usize = 10;

    let max_rate = ByteRate::new(LIMIT, Duration::from_secs(1));
    let mut limiter = PollingByteRateLimiter::new(max_rate, at(0));

    for _ in 0..(LIMIT - 1) {
        assert!(limiter.send(at(0)).unwrap());
        assert!(limiter.can_send(at(0)));
    }

    let wait = limiter.duration_until_reset(at(0)).unwrap();
    assert_eq!(wait.as_nanos(), 1_000_000_000);
    let later = at(wait.as_nanos() as u64);

    for _ in 0..(LIMIT - 1) {
        assert!(limiter.send(later).unwrap());
        assert!(limiter.can_send(later));
    }

    assert!(!limiter.send(later).unwrap());
    assert!(!limiter.can_send(later));
}

#[test]
fn window_budget_ten_per_second() {
    let max_rate = ByteRate::new(10, Duration::from_secs(1));
    let mut limiter = PollingByteRateLimiter::new(max_rate, at(0));
    assert_eq!(limiter.state(), LimiterState::Idle);
    let mut results = Vec::new();
    for _ in 0..10 {
        results.push(limiter.send(at(0)).unwrap());
    }
    let mut expected = vec![true; 9];
    expected.push(false);
    assert_eq!(results, expected);
    assert!(!limiter.send(at(0)).unwrap());
    assert!(!limiter.can_send(at(0)));
    assert!(limiter.send(at(1_000_000_000)).unwrap());
}

#[test]
fn never_more_than_budget_per_window() {
    // Sends every 30 ms over 10 s; at most 4 sends are granted per 250 ms window.
    let max_rate = ByteRate::new(4, Duration::from_millis(250));
    let mut limiter = PollingByteRateLimiter::new(max_rate, at(0));
    let mut granted = [0usize; 41];
    for step in 0..334u64 {
        let now = step * 30_000_000;
        if limiter.can_send(at(now)) {
            limiter.send(at(now)).unwrap();
            granted[(now / 250_000_000) as usize] += 1;
        }
    }
    assert!(granted.iter().all(|&n| n <= 4));
    assert!(granted.iter().any(|&n| n == 4));
}

#[test]
fn late_caller_keeps_window_phase() {
    let max_rate = ByteRate::new(1, Duration::from_secs(1));
    let mut limiter = PollingByteRateLimiter::new(max_rate, at(0));
    assert!(!limiter.send(at(100)).unwrap());
    // The window opened at 100 ns ends at 1 s + 100 ns; a call at 3.5 s gets
    // the window that ends at 4 s + 100 ns.
    assert!(!limiter.send(at(3_500_000_000)).unwrap());
    let left = limiter.duration_until_reset(at(3_500_000_000)).unwrap();
    assert_eq!(left.as_nanos(), 500_000_100);
}

#[test]
fn zero_budget_stays_blocked() {
    let max_rate = ByteRate::new(0, Duration::from_secs(1));
    let mut limiter = PollingByteRateLimiter::new(max_rate, at(0));
    assert!(!limiter.send(at(0)).unwrap());
    assert!(!limiter.send(at(5_000_000_000)).unwrap());
    assert!(!limiter.can_send(at(5_000_000_000)));
    assert!(limiter.duration_until_reset(at(0)).is_none());
}

#[test]
fn unlimited_has_no_reset() {
    let limiter = PollingByteRateLimiter::new(ByteRate::new(3, Duration::zero()), at(0));
    assert!(limiter.duration_until_reset(at(0)).is_none());
    assert!(limiter.can_send(at(0)));
}

#[test]
fn deadline_overflow_is_reported() {
    let max_rate = ByteRate::new(3, Duration::from_secs(1));
    let mut limiter = PollingByteRateLimiter::new(max_rate, at(0));
    assert_eq!(limiter.send(at(u64::MAX - 10)), Err(TimerError::Overflow));
    assert_eq!(limiter.state(), LimiterState::Idle);
    assert!(limiter.send(at(0)).unwrap());
    assert_eq!(limiter.restart(at(u64::MAX - 10)), Err(TimerError::Overflow));
}

#[test]
fn set_byte_rate_resets_phase() {
    let mut limiter = PollingByteRateLimiter::new(ByteRate::new(1, Duration::from_secs(1)), at(0));
    assert!(!limiter.send(at(0)).unwrap());
    assert_eq!(limiter.state(), LimiterState::Limiting);
    limiter.set_byte_rate(ByteRate::new(2, Duration::from_secs(1)), at(10));
    assert_eq!(limiter.state(), LimiterState::Idle);
    assert_eq!(limiter.max_rate().bytes(), 2);
}

#[test]
fn record_write_spends_budget_only_on_success() {
    let mut limiter = PollingByteRateLimiter::new(ByteRate::new(2, Duration::from_secs(1)), at(0));
    assert_eq!(limiter.record_write(Outcome::<u8>::WouldBlock, at(0)), Ok(Outcome::WouldBlock));
    assert_eq!(limiter.record_write(Outcome::Failed(9u8), at(0)), Ok(Outcome::Failed(9)));
    assert_eq!(limiter.state(), LimiterState::Idle);
    assert_eq!(limiter.record_write(Outcome::<u8>::Done, at(0)), Ok(Outcome::Done));
    assert_eq!(limiter.state(), LimiterState::Running(1));
    assert_eq!(limiter.record_write(Outcome::<u8>::Done, at(0)), Ok(Outcome::Done));
    assert!(!limiter.can_send(at(0)));
}
