//! The clock as the rest of the process sees it once calibration is over.

use vstd::prelude::*;
use crate::level::LevelModel;
use crate::level::TSCLevel;
use crate::level::wrapping_diff;

verus! {

/// The outcome of calibration together with the answer to the one question
/// that every caller asks first: whether the counter may be read at all.
/// Built once and never changed.
#[derive(Debug)]
pub struct TSCState {
    is_tsc_available: bool,
    tsc_level: TSCLevel,
}

impl TSCState {
    #[verifier::type_invariant]
    spec fn consistent(&self) -> bool {
        self.is_tsc_available == self.tsc_level@.usable()
    }

    /// The level that the state was built from.
    pub closed spec fn level(&self) -> LevelModel {
        self.tsc_level@
    }

    /// Records the outcome of calibration.
    pub fn new(level: TSCLevel) -> (state: TSCState)
        ensures
            state.level() == level@,
    {
        let available = level.is_available();
        TSCState { is_tsc_available: available, tsc_level: level }
    }

    /// Whether the counter may be read: false exactly when the level is
    /// `Unstable`.
    pub fn is_tsc_available(&self) -> (r: bool)
        ensures
            r == !(self.level() is Unstable),
    {
        proof {
            use_type_invariant(self);
        }
        self.is_tsc_available
    }

    /// A copy of the level.
    pub fn get_tsc_level(&self) -> (level: TSCLevel)
        ensures
            level@ == self.level(),
    {
        self.tsc_level.clone()
    }

    /// The calibrated rate; the counter must be available.
    pub fn cycles_per_second(&self) -> (r: u64)
        requires
            !(self.level() is Unstable),
        ensures
            r == self.level().rate(),
    {
        self.tsc_level.cycles_per_second()
    }

    /// The cycles since the anchor that the raw reading `raw`, taken on
    /// `core`, stands for: the reading less the offset of the level, or of the
    /// core where each core has its own. The counter must be available, and
    /// the core must be one that the table holds.
    pub fn current_cycle(&self, raw: u64, core: usize) -> (r: u64)
        requires
            self.level().covers(core as int),
        ensures
            r == wrapping_diff(raw, self.level().offset_for(core as int)),
    {
        self.tsc_level.elapsed_cycles(raw, core)
    }
}

} // verus!
