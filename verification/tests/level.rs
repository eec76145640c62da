use tsc_clock::state::TSCState;
use tsc_clock::TSCLevel;

fn levels() -> Vec<TSCLevel> {
    vec![
        TSCLevel::Stable { cycles_per_second: 2_400_000_000, cycles_from_anchor: 100 },
        TSCLevel::PerCPUStable { cycles_per_second: 3_000_000_000, cycles_from_anchor: vec![5, 0, 7] },
        TSCLevel::Unstable,
    ]
}

#[test]
fn available_unless_unstable() {
    for level in levels() {
        let unstable = matches!(level, TSCLevel::Unstable);
        assert_eq!(level.is_available(), !unstable);
        let state = TSCState::new(level);
        assert_eq!(state.is_tsc_available(), !unstable);
        assert_eq!(matches!(state.get_tsc_level(), TSCLevel::Unstable), unstable);
    }
}

#[test]
fn state_hands_out_a_copy_of_its_level() {
    for level in levels() {
        let state = TSCState::new(level.clone());
        assert_eq!(state.get_tsc_level(), level);
        assert_eq!(level.clone(), level);
    }
}

#[test]
fn rate_of_a_usable_level() {
    let all = levels();
    assert_eq!(all[0].cycles_per_second(), 2_400_000_000);
    assert_eq!(all[1].cycles_per_second(), 3_000_000_000);
    assert_eq!(TSCState::new(all[0].clone()).cycles_per_second(), 2_400_000_000);
    assert_eq!(TSCState::new(all[1].clone()).cycles_per_second(), 3_000_000_000);
}

#[test]
fn stable_level_subtracts_its_one_offset() {
    let state = TSCState::new(TSCLevel::Stable { cycles_per_second: 1, cycles_from_anchor: 100 });
    assert_eq!(state.current_cycle(250, 0), 150);
    assert_eq!(state.current_cycle(250, 4095), 150);
    assert_eq!(state.current_cycle(100, 0), 0);
}

#[test]
fn per_core_level_subtracts_the_offset_of_the_core() {
    let state = TSCState::new(TSCLevel::PerCPUStable {
        cycles_per_second: 1,
        cycles_from_anchor: vec![5, 0, 7],
    });
    assert_eq!(state.current_cycle(250, 0), 245);
    assert_eq!(state.current_cycle(250, 1), 250);
    assert_eq!(state.current_cycle(250, 2), 243);
}

#[test]
fn subtraction_wraps_like_the_counter() {
    let level = TSCLevel::Stable { cycles_per_second: 1, cycles_from_anchor: 100 };
    assert_eq!(level.elapsed_cycles(99, 0), u64::MAX);
    assert_eq!(level.elapsed_cycles(0, 0), u64::MAX - 99);
    let late = TSCLevel::Stable { cycles_per_second: 1, cycles_from_anchor: u64::MAX };
    assert_eq!(late.elapsed_cycles(0, 0), 1);
}
