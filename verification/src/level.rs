//! The outcome of calibration.

use vstd::prelude::*;

verus! {

/// How far the cycle counter can be trusted.
#[allow(inconsistent_fields)]
#[derive(Debug, PartialEq, Eq)]
pub enum TSCLevel {
    /// One rate and one offset serve every core.
    Stable { cycles_per_second: u64, cycles_from_anchor: u64 },
    /// One rate serves every core, but each core has its own offset; the table
    /// is indexed by core identifier.
    PerCPUStable { cycles_per_second: u64, cycles_from_anchor: Vec<u64> },
    /// The counter must not be read.
    Unstable,
}

/// The mathematical content of a [`TSCLevel`].
pub ghost enum LevelModel {
    Stable { rate: u64, offset: u64 },
    PerCore { rate: u64, offsets: Seq<u64> },
    Unstable,
}

impl LevelModel {
    /// True when the counter may be used in some form.
    pub open spec fn usable(self) -> bool {
        !(self is Unstable)
    }

    /// The calibrated rate; zero where there is none.
    pub open spec fn rate(self) -> u64 {
        match self {
            LevelModel::Stable { rate, .. } => rate,
            LevelModel::PerCore { rate, .. } => rate,
            LevelModel::Unstable => 0,
        }
    }

    /// True when a reading taken on `core` can be converted.
    pub open spec fn covers(self, core: int) -> bool {
        match self {
            LevelModel::Stable { .. } => true,
            LevelModel::PerCore { offsets, .. } => 0 <= core < offsets.len(),
            LevelModel::Unstable => false,
        }
    }

    /// The offset that applies to a reading taken on `core`.
    pub open spec fn offset_for(self, core: int) -> u64
        recommends
            self.covers(core),
    {
        match self {
            LevelModel::Stable { offset, .. } => offset,
            LevelModel::PerCore { offsets, .. } => offsets[core],
            LevelModel::Unstable => 0,
        }
    }
}

impl View for TSCLevel {
    type V = LevelModel;

    open spec fn view(&self) -> LevelModel {
        match self {
            TSCLevel::Stable { cycles_per_second, cycles_from_anchor } => LevelModel::Stable {
                rate: *cycles_per_second,
                offset: *cycles_from_anchor,
            },
            TSCLevel::PerCPUStable { cycles_per_second, cycles_from_anchor } => LevelModel::PerCore {
                rate: *cycles_per_second,
                offsets: cycles_from_anchor@,
            },
            TSCLevel::Unstable => LevelModel::Unstable,
        }
    }
}

impl TSCLevel {
    /// Whether calibration succeeded in some form.
    pub fn is_available(&self) -> (r: bool)
        ensures
            r == self@.usable(),
    {
        match self {
            TSCLevel::Stable { .. } => true,
            TSCLevel::PerCPUStable { .. } => true,
            TSCLevel::Unstable => false,
        }
    }

    /// The calibrated cycles per second. An unstable counter has no rate, so
    /// the caller must have checked availability first.
    pub fn cycles_per_second(&self) -> (r: u64)
        requires
            self@.usable(),
        ensures
            r == self@.rate(),
    {
        match self {
            TSCLevel::Stable { cycles_per_second, .. } => *cycles_per_second,
            TSCLevel::PerCPUStable { cycles_per_second, .. } => *cycles_per_second,
            TSCLevel::Unstable => 0,
        }
    }

    /// Cycles elapsed since the anchor for a raw reading `raw` taken on `core`.
    /// The subtraction wraps, as the counter itself does.
    pub fn elapsed_cycles(&self, raw: u64, core: usize) -> (r: u64)
        requires
            self@.covers(core as int),
        ensures
            r == wrapping_diff(raw, self@.offset_for(core as int)),
    {
        match self {
            TSCLevel::Stable { cycles_from_anchor, .. } => raw.wrapping_sub(*cycles_from_anchor),
            TSCLevel::PerCPUStable { cycles_from_anchor, .. } => raw.wrapping_sub(
                cycles_from_anchor[core],
            ),
            TSCLevel::Unstable => 0,
        }
    }
}

/// `a - b` modulo 2^64.
pub open spec fn wrapping_diff(a: u64, b: u64) -> u64 {
    if a >= b {
        (a - b) as u64
    } else {
        (a - b + 0x1_0000_0000_0000_0000) as u64
    }
}

impl Clone for TSCLevel {
    fn clone(&self) -> (r: Self)
        ensures
            r@ == self@,
    {
        match self {
            TSCLevel::Stable { cycles_per_second, cycles_from_anchor } => TSCLevel::Stable {
                cycles_per_second: *cycles_per_second,
                cycles_from_anchor: *cycles_from_anchor,
            },
            TSCLevel::PerCPUStable { cycles_per_second, cycles_from_anchor } => {
                let table = cycles_from_anchor.clone();
                assert(table@ =~= cycles_from_anchor@);
                TSCLevel::PerCPUStable {
                    cycles_per_second: *cycles_per_second,
                    cycles_from_anchor: table,
                }
            },
            TSCLevel::Unstable => TSCLevel::Unstable,
        }
    }
}

} // verus!
