use tsc_clock::anchor::Sample;
use tsc_clock::calibrate::_calculate_cycles_per_sec;
use tsc_clock::calibrate::estimates_agree;
use tsc_clock::calibrate::round_rate;
use tsc_clock::calibrate::Calibrator;

fn at(nanos: u64, rate_per_nano: u64) -> Sample {
    Sample { nanos, tsc: 1_000 + rate_per_nano * nanos }
}

#[test]
fn new_calibrator_has_seen_nothing() {
    assert_eq!(Calibrator::new(), Calibrator { start: None, prev_cycles: 0, prev_nanos: 1 });
}

#[test]
fn window_must_be_longer_than_ten_milliseconds() {
    let mut c = Calibrator::new();
    assert_eq!(c.feed(at(0, 3)), None);
    assert_eq!(c.start, Some(at(0, 3)));
    assert_eq!(c.feed(at(5_000_000, 3)), None);
    assert_eq!(c.feed(at(10_000_000, 3)), None);
    assert_eq!(c.start, Some(at(0, 3)));
    assert_eq!(c.feed(at(10_000_001, 3)), None);
    assert_eq!(c, Calibrator { start: None, prev_cycles: 30_000_003, prev_nanos: 10_000_001 });
}

#[test]
fn steady_counter_converges_on_the_second_window() {
    let mut c = Calibrator::new();
    assert_eq!(c.feed(at(0, 3)), None);
    assert_eq!(c.feed(at(10_000_001, 3)), None);
    assert_eq!(c.feed(at(10_000_500, 3)), None);
    assert_eq!(c.feed(at(15_000_000, 3)), None);
    let last = at(20_000_501, 3);
    assert_eq!(c.feed(last), Some((3_000_000_000, last)));
}

#[test]
fn changing_rate_keeps_measuring() {
    let mut c = Calibrator::new();
    assert_eq!(c.feed(Sample { nanos: 0, tsc: 0 }), None);
    assert_eq!(c.feed(Sample { nanos: 20_000_000, tsc: 40_000_000 }), None);
    assert_eq!(c.feed(Sample { nanos: 20_000_000, tsc: 40_000_000 }), None);
    assert_eq!(c.feed(Sample { nanos: 40_000_000, tsc: 100_000_000 }), None);
    assert_eq!(c, Calibrator { start: None, prev_cycles: 60_000_000, prev_nanos: 20_000_000 });
    assert_eq!(c.feed(Sample { nanos: 40_000_000, tsc: 100_000_000 }), None);
    let last = Sample { nanos: 60_000_000, tsc: 160_000_100 };
    assert_eq!(c.feed(last), Some((3_000_005_000, last)));
}

#[test]
fn stopped_counter_never_converges() {
    let mut c = Calibrator::new();
    for k in 0..6u64 {
        assert_eq!(c.feed(Sample { nanos: k * 20_000_000, tsc: 5 }), None);
    }
}

#[test]
fn agreement_is_strictly_below_the_tolerance() {
    assert!(estimates_agree(100_001, 1, 100_000, 1));
    assert!(!estimates_agree(100_000, 1, 100_001, 1));
    assert!(!estimates_agree(100_000, 1, 99_999, 1));
    assert!(estimates_agree(3, 7, 3, 7));
    assert!(estimates_agree(6, 14, 3, 7));
    assert!(!estimates_agree(5, 1, 0, 1));
    assert!(!estimates_agree(0, 1, 0, 1));
    assert!(!estimates_agree(0, 1, 5, 1));
    assert!(estimates_agree(u64::MAX, u64::MAX, u64::MAX, u64::MAX));
    assert!(!estimates_agree(u64::MAX, 1, 1, u64::MAX));
}

#[test]
fn agreement_matches_the_relative_change() {
    let windows: [(u64, u64, u64, u64); 4] = [
        (30_000_000, 10_000_001, 30_000_100, 10_000_002),
        (30_000_000, 10_000_001, 30_003_000, 10_000_002),
        (24_000_000, 10_000_000, 48_000_300, 20_000_000),
        (24_000_000, 10_000_000, 48_001_000, 20_000_000),
    ];
    for (cycles, nanos, prev_cycles, prev_nanos) in windows {
        let new = cycles as f64 * 1e9 / nanos as f64;
        let old = prev_cycles as f64 * 1e9 / prev_nanos as f64;
        let by_floats = (new - old).abs() / new < 0.00001;
        assert_eq!(estimates_agree(cycles, nanos, prev_cycles, prev_nanos), by_floats);
    }
}

#[test]
fn rate_is_rounded_to_the_nearest_cycle() {
    assert_eq!(round_rate(1, 3), 333_333_333);
    assert_eq!(round_rate(2, 3), 666_666_667);
    assert_eq!(round_rate(1, 2_000_000_000), 1);
    assert_eq!(round_rate(1, 2_000_000_001), 0);
    assert_eq!(round_rate(0, 5), 0);
    assert_eq!(round_rate(30_000_003, 10_000_001), 3_000_000_000);
    assert_eq!(round_rate(u64::MAX, 1), u64::MAX);
    assert_eq!(round_rate(u64::MAX, u64::MAX), 1_000_000_000);
}

#[test]
fn whole_measurement_over_injected_samples() {
    let samples = vec![
        at(0, 2),
        at(4_000_000, 2),
        at(11_000_000, 2),
        at(11_000_100, 2),
        at(21_000_101, 2),
        at(99_000_000, 2),
    ];
    assert_eq!(_calculate_cycles_per_sec(&samples), Some((2_000_000_000, at(21_000_101, 2))));
}

#[test]
fn measurement_that_runs_out_of_samples() {
    assert_eq!(_calculate_cycles_per_sec(&Vec::new()), None);
    let one_window = vec![at(0, 2), at(11_000_000, 2), at(11_000_100, 2)];
    assert_eq!(_calculate_cycles_per_sec(&one_window), None);
}

#[test]
fn truncated_counter_stays_within_tolerance() {
    let rate: u64 = 2_394_371_113;
    let counter = |nanos: u64| (rate as u128 * nanos as u128 / 1_000_000_000) as u64;
    let times = [17u64, 10_000_018, 10_000_900, 23_456_789];
    let samples: Vec<Sample> = times.iter().map(|&t| Sample { nanos: t, tsc: counter(t) }).collect();
    let (found, last) = _calculate_cycles_per_sec(&samples).unwrap();
    assert_eq!(last, samples[3]);
    assert!(found.abs_diff(rate) <= 100);
    assert!(found.abs_diff(rate) as u128 * 100_000 <= rate as u128);
}
