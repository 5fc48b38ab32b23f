use dnsqueryx::admission::{
    AdmissionController, Decision, RateLimitConfig, DEFAULT_BURST_SIZE, DEFAULT_PER_SECOND,
    NANOS_PER_SECOND,
};

fn controller(per_second: u32, burst_size: u32) -> AdmissionController {
    AdmissionController::new(RateLimitConfig::new(per_second, burst_size).expect("positive limits"))
}

fn admitted(controller: &mut AdmissionController, key: u128, times: &[u64]) -> usize {
    times.iter().filter(|now| controller.decide(key, **now) == Decision::Admit).count()
}

#[test]
fn zero_limits_are_refused() {
    assert!(RateLimitConfig::new(0, 10).is_none());
    assert!(RateLimitConfig::new(3, 0).is_none());
    assert!(RateLimitConfig::new(0, 0).is_none());
    assert!(RateLimitConfig::new(1, 1).is_some());
    assert!(RateLimitConfig::new(u32::MAX, u32::MAX).is_some());
}

#[test]
fn defaults_are_three_per_second_and_bursts_of_ten() {
    assert_eq!(DEFAULT_PER_SECOND, 3);
    assert_eq!(DEFAULT_BURST_SIZE, 10);
    let config = RateLimitConfig::default();
    assert_eq!(config.per_second(), 3);
    assert_eq!(config.burst_size(), 10);
}

#[test]
fn absent_settings_fall_back_on_defaults() {
    let config = RateLimitConfig::from_settings(None, None).expect("the defaults are positive");
    assert_eq!((config.per_second(), config.burst_size()), (3, 10));
    let config = RateLimitConfig::from_settings(Some(7), None).expect("positive");
    assert_eq!((config.per_second(), config.burst_size()), (7, 10));
    let config = RateLimitConfig::from_settings(None, Some(2)).expect("positive");
    assert_eq!((config.per_second(), config.burst_size()), (3, 2));
    assert!(RateLimitConfig::from_settings(Some(0), None).is_none());
    assert!(RateLimitConfig::from_settings(None, Some(0)).is_none());
}

#[test]
fn new_client_gets_exactly_a_burst() {
    let mut c = controller(3, 10);
    for i in 0..10u64 {
        assert_eq!(c.decide(1, 1_000 + i), Decision::Admit, "request {i}");
    }
    assert_eq!(c.decide(1, 1_010), Decision::Reject);
    assert_eq!(c.decide(1, 1_011), Decision::Reject);
}

#[test]
fn burst_of_one() {
    let mut c = controller(1, 1);
    assert_eq!(c.decide(9, 0), Decision::Admit);
    assert_eq!(c.decide(9, 0), Decision::Reject);
    assert_eq!(c.decide(9, NANOS_PER_SECOND - 1), Decision::Reject);
    assert_eq!(c.decide(9, NANOS_PER_SECOND), Decision::Admit);
    assert_eq!(c.decide(9, NANOS_PER_SECOND), Decision::Reject);
}

#[test]
fn one_second_admits_at_most_rate_plus_burst() {
    let mut c = controller(3, 10);
    let times: Vec<u64> = (0..=1_000u64).map(|i| 5_000_000_000 + i * 1_000_000).collect();
    assert_eq!(times.len(), 1_001);
    assert_eq!(*times.last().expect("not empty") - times[0], NANOS_PER_SECOND);
    assert_eq!(admitted(&mut c, 1, &times), 13);
}

#[test]
fn more_than_rate_plus_burst_in_a_second_meets_a_rejection() {
    let mut c = controller(3, 10);
    let times: Vec<u64> = (0..14u64).map(|i| i * (NANOS_PER_SECOND / 13)).collect();
    assert!(*times.last().expect("not empty") <= NANOS_PER_SECOND);
    assert!(admitted(&mut c, 1, &times) < 14);
}

#[test]
fn refill_is_exact_to_the_nanosecond() {
    let mut c = controller(3, 2);
    assert_eq!(c.decide(7, 0), Decision::Admit);
    assert_eq!(c.decide(7, 0), Decision::Admit);
    assert_eq!(c.decide(7, 0), Decision::Reject);
    let bucket = c.bucket(7).expect("the client has been seen");
    assert_eq!((bucket.credit(), bucket.tokens(), bucket.last_refill()), (0, 0, 0));
    assert_eq!(c.decide(7, 333_333_333), Decision::Reject);
    let bucket = c.bucket(7).expect("the client has been seen");
    assert_eq!((bucket.credit(), bucket.last_refill()), (999_999_999, 333_333_333));
    assert_eq!(c.decide(7, 333_333_334), Decision::Admit);
    let bucket = c.bucket(7).expect("the client has been seen");
    assert_eq!((bucket.credit(), bucket.last_refill()), (2, 333_333_334));
}

#[test]
fn refill_stops_at_the_burst_size() {
    let mut c = controller(3, 2);
    assert_eq!(c.decide(7, 0), Decision::Admit);
    assert_eq!(c.decide(7, 0), Decision::Admit);
    let later = 3_600 * NANOS_PER_SECOND;
    assert_eq!(c.decide(7, later), Decision::Admit);
    let bucket = c.bucket(7).expect("the client has been seen");
    assert_eq!((bucket.credit(), bucket.tokens()), (NANOS_PER_SECOND, 1));
    assert_eq!(c.decide(7, later), Decision::Admit);
    assert_eq!(c.decide(7, later), Decision::Reject);
}

#[test]
fn sustained_rate_is_the_configured_rate() {
    let mut c = controller(5, 1);
    let times: Vec<u64> = (0..10_000u64).map(|i| i * 1_000_000).collect();
    assert_eq!(admitted(&mut c, 3, &times), 50);
}

#[test]
fn extreme_limits_and_times_do_not_overflow() {
    let mut c = controller(u32::MAX, u32::MAX);
    assert_eq!(c.decide(0, 0), Decision::Admit);
    let bucket = c.bucket(0).expect("the client has been seen");
    assert_eq!(bucket.credit(), (u32::MAX as u64 - 1) * NANOS_PER_SECOND);
    assert_eq!(c.decide(0, u64::MAX), Decision::Admit);
    let bucket = c.bucket(0).expect("the client has been seen");
    assert_eq!(bucket.credit(), (u32::MAX as u64 - 1) * NANOS_PER_SECOND);
    assert_eq!(bucket.last_refill(), u64::MAX);
    assert_eq!(bucket.tokens(), u32::MAX as u64 - 1);
}

#[test]
fn a_clock_that_steps_back_adds_nothing() {
    let mut c = controller(1, 1);
    assert_eq!(c.decide(4, 10 * NANOS_PER_SECOND), Decision::Admit);
    assert_eq!(c.decide(4, 0), Decision::Reject);
    let bucket = c.bucket(4).expect("the client has been seen");
    assert_eq!((bucket.credit(), bucket.last_refill()), (0, 10 * NANOS_PER_SECOND));
    assert_eq!(c.decide(4, 11 * NANOS_PER_SECOND - 1), Decision::Reject);
    assert_eq!(c.decide(4, 11 * NANOS_PER_SECOND), Decision::Admit);
}

#[test]
fn exhausting_one_client_leaves_another_alone() {
    let mut c = controller(3, 10);
    for _ in 0..10 {
        assert_eq!(c.decide(1, 0), Decision::Admit);
    }
    assert_eq!(c.decide(1, 0), Decision::Reject);
    assert!(c.bucket(2).is_none());
    for _ in 0..10 {
        assert_eq!(c.decide(2, 0), Decision::Admit);
    }
    assert_eq!(c.decide(2, 0), Decision::Reject);
    assert_eq!(c.clients(), 2);
}

#[test]
fn interleaved_clients_fare_as_if_alone() {
    let times: Vec<u64> = (0..40u64).map(|i| i * 90_000_000).collect();
    let mut alone = controller(3, 4);
    let expected: Vec<Decision> = times.iter().map(|now| alone.decide(1, *now)).collect();
    let mut shared = controller(3, 4);
    let mut seen = Vec::new();
    for now in &times {
        shared.decide(2, *now);
        seen.push(shared.decide(1, *now));
        shared.decide(3, now + 1);
        shared.decide(2, now + 2);
    }
    assert_eq!(seen, expected);
    assert!(expected.contains(&Decision::Reject));
    assert!(expected[4..].contains(&Decision::Admit));
}

#[test]
fn requests_of_different_clients_commute() {
    let mut one = controller(2, 1);
    let mut other = controller(2, 1);
    let a1 = one.decide(1, 5);
    let b1 = one.decide(2, 9);
    let b2 = other.decide(2, 9);
    let a2 = other.decide(1, 5);
    assert_eq!((a1, b1), (a2, b2));
    for key in [1u128, 2] {
        let x = one.bucket(key).expect("seen");
        let y = other.bucket(key).expect("seen");
        assert_eq!((x.credit(), x.last_refill()), (y.credit(), y.last_refill()));
    }
}

#[test]
fn controller_starts_empty_and_keeps_its_config() {
    let c = controller(4, 6);
    assert_eq!(c.clients(), 0);
    assert!(c.bucket(0).is_none());
    assert_eq!((c.config().per_second(), c.config().burst_size()), (4, 6));
}

#[test]
fn tokens_stay_within_the_burst_size() {
    let mut c = controller(1_000, 5);
    let mut now = 0u64;
    for i in 0..2_000u64 {
        now += (i * 7_919) % 3_000_000;
        c.decide(1, now);
        let bucket = c.bucket(1).expect("seen");
        assert!(bucket.tokens() <= 5);
        assert!(bucket.credit() <= 5 * NANOS_PER_SECOND);
    }
}

#[test]
fn requests_slower_than_a_burst_outlast_the_burst_size() {
    let mut c = controller(3, 10);
    let verdicts: Vec<Decision> = (0..100u64).map(|i| c.decide(1, i * 300_000_000)).collect();
    let first_rejected = verdicts.iter().position(|d| *d == Decision::Reject);
    assert_eq!(first_rejected, Some(91));
}

#[test]
fn burst_holds_while_refill_stays_under_a_token() {
    let mut c = controller(3, 10);
    let times: Vec<u64> = (0..30u64).map(|i| 7 + i * 11_494_252).collect();
    assert!((times[29] - times[0]) * 3 < NANOS_PER_SECOND);
    let verdicts: Vec<Decision> = times.iter().map(|now| c.decide(5, *now)).collect();
    for (i, verdict) in verdicts.iter().enumerate() {
        assert_eq!(*verdict == Decision::Admit, i < 10, "request {i}");
    }
}
