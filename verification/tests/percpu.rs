use tsc_clock::percpu::check_pinned;
use tsc_clock::percpu::core_id_from_aux;
use tsc_clock::percpu::merge;
use tsc_clock::percpu::orchestrate;
use tsc_clock::percpu::CoreCalibration;
use tsc_clock::percpu::WorkerFailure;
use tsc_clock::TSCLevel;

fn report(cpuid: usize, cycles_per_second: u64, cycles_from_anchor: u64) -> CoreCalibration {
    CoreCalibration { cpuid, cycles_per_second, cycles_from_anchor }
}

#[test]
fn close_frequencies_merge_to_truncated_average() {
    let reports = vec![report(0, 1000000, 11), report(1, 1000100, 22), report(2, 999950, 33)];
    assert_eq!(
        merge(&reports),
        TSCLevel::PerCPUStable { cycles_per_second: 1000016, cycles_from_anchor: vec![11, 22, 33] }
    );
}

#[test]
fn distant_frequencies_are_unstable() {
    let reports = vec![report(0, 1000000, 11), report(1, 1005000, 22), report(2, 999000, 33)];
    assert_eq!(merge(&reports), TSCLevel::Unstable);
}

#[test]
fn spread_limit_is_exclusive() {
    let at_limit = vec![report(0, 2000, 0), report(1, 2001, 0)];
    assert_eq!(
        merge(&at_limit),
        TSCLevel::PerCPUStable { cycles_per_second: 2000, cycles_from_anchor: vec![0, 0] }
    );
    let beyond = vec![report(0, 2000, 0), report(1, 2002, 0)];
    assert_eq!(merge(&beyond), TSCLevel::Unstable);
}

#[test]
fn spread_rule_agrees_with_the_quotient() {
    let pairs: [(u64, u64); 6] = [
        (1000000, 1000100),
        (999000, 1005000),
        (2_400_000_000, 2_401_200_000),
        (2_400_000_000, 2_401_200_001),
        (3_000_000_000, 3_000_000_000),
        (1, 2),
    ];
    for (lo, hi) in pairs {
        let by_quotient = (hi - lo) as f64 / lo as f64 > 0.0005;
        let merged = merge(&vec![report(0, lo, 0), report(1, hi, 0)]);
        assert_eq!(merged == TSCLevel::Unstable, by_quotient, "on {} and {}", lo, hi);
    }
}

#[test]
fn table_has_a_slot_for_every_identifier_up_to_the_largest() {
    let reports = vec![report(5, 1000, 50), report(1, 1000, 10), report(3, 1000, 30)];
    assert_eq!(
        merge(&reports),
        TSCLevel::PerCPUStable {
            cycles_per_second: 1000,
            cycles_from_anchor: vec![0, 10, 0, 30, 0, 50],
        }
    );
}

#[test]
fn later_report_for_a_core_replaces_the_earlier() {
    let reports = vec![report(1, 1000, 10), report(1, 1000, 99)];
    assert_eq!(
        merge(&reports),
        TSCLevel::PerCPUStable { cycles_per_second: 1000, cycles_from_anchor: vec![0, 99] }
    );
}

#[test]
fn no_report_is_unstable() {
    assert_eq!(merge(&Vec::new()), TSCLevel::Unstable);
    assert_eq!(orchestrate(&Vec::new()), TSCLevel::Unstable);
}

#[test]
fn average_of_the_largest_rates_does_not_overflow() {
    let reports = vec![report(0, u64::MAX, 1), report(1, u64::MAX, 2), report(2, u64::MAX, 3)];
    assert_eq!(
        merge(&reports),
        TSCLevel::PerCPUStable { cycles_per_second: u64::MAX, cycles_from_anchor: vec![1, 2, 3] }
    );
}

#[test]
fn zero_rates_merge_to_zero() {
    let reports = vec![report(0, 0, 7)];
    assert_eq!(
        merge(&reports),
        TSCLevel::PerCPUStable { cycles_per_second: 0, cycles_from_anchor: vec![7] }
    );
    let mixed = vec![report(0, 0, 7), report(1, 1, 8)];
    assert_eq!(merge(&mixed), TSCLevel::Unstable);
}

#[test]
fn orchestrate_merges_when_every_worker_succeeds() {
    let outcomes = vec![Ok(report(0, 1000000, 11)), Ok(report(1, 1000100, 22)), Ok(report(2, 999950, 33))];
    assert_eq!(
        orchestrate(&outcomes),
        TSCLevel::PerCPUStable { cycles_per_second: 1000016, cycles_from_anchor: vec![11, 22, 33] }
    );
}

#[test]
fn one_failed_worker_makes_the_whole_unstable() {
    for failure in [
        WorkerFailure::Affinity { os_error: 22 },
        WorkerFailure::CoreMismatch { requested: 1, reported: 3 },
        WorkerFailure::Aborted,
    ] {
        let outcomes = vec![Ok(report(0, 1000000, 11)), Err(failure), Ok(report(2, 1000000, 33))];
        assert_eq!(orchestrate(&outcomes), TSCLevel::Unstable);
    }
}

#[test]
fn mismatched_core_fails_the_worker_and_the_orchestration() {
    let verdict = check_pinned(1, Ok(()), 3);
    assert_eq!(verdict, Err(WorkerFailure::CoreMismatch { requested: 1, reported: 3 }));
    let outcomes = vec![
        Ok(report(0, 1000000, 11)),
        verdict.map(|_| report(1, 1000000, 22)),
        Ok(report(2, 1000000, 33)),
    ];
    assert_eq!(orchestrate(&outcomes), TSCLevel::Unstable);
}

#[test]
fn pinning_verdicts() {
    assert_eq!(check_pinned(3, Ok(()), 3), Ok(()));
    assert_eq!(check_pinned(3, Ok(()), 0x0000_1003), Ok(()));
    assert_eq!(
        check_pinned(3, Err(1), 3),
        Err(WorkerFailure::Affinity { os_error: 1 })
    );
    assert_eq!(
        check_pinned(4096, Ok(()), 0x1000),
        Err(WorkerFailure::CoreMismatch { requested: 4096, reported: 0 })
    );
}

#[test]
fn core_id_is_the_low_twelve_bits() {
    assert_eq!(core_id_from_aux(0), 0);
    assert_eq!(core_id_from_aux(0xfff), 0xfff);
    assert_eq!(core_id_from_aux(0x1000), 0);
    assert_eq!(core_id_from_aux(0x0003_2007), 7);
    assert_eq!(core_id_from_aux(u32::MAX), 0xfff);
}
