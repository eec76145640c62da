//! Per-core calibration: what each pinned worker must establish, and how the
//! workers' results are checked against each other and merged.

use vstd::prelude::*;
use crate::level::TSCLevel;
use crate::level::LevelModel;

verus! {

/// Bits of the auxiliary register that hold the core identifier.
pub const CORE_ID_MASK: u32 = 0xfff;

/// Spread between the fastest and the slowest core above which the cores
/// disagree: one part in `SPREAD_DIVISOR`.
pub const SPREAD_DIVISOR: u64 = 2000;

/// The result of calibrating one core.
#[derive(Clone, Copy, Debug, PartialEq, Eq)]
pub struct CoreCalibration {
    pub cpuid: usize,
    pub cycles_per_second: u64,
    pub cycles_from_anchor: u64,
}

/// Why a worker gave no calibration.
#[derive(Clone, Copy, Debug, PartialEq, Eq)]
pub enum WorkerFailure {
    /// The operating system refused to pin the thread; carries its error code.
    Affinity { os_error: i32 },
    /// The thread was pinned, but the counter reports another core.
    CoreMismatch { requested: usize, reported: usize },
    /// The worker ended without a result.
    Aborted,
}

/// The core identifier held in the low bits of the auxiliary register value.
pub open spec fn core_id_of(aux: u32) -> int {
    (aux as int) % 0x1000
}

/// Extracts the core identifier from the auxiliary value that accompanies a
/// serializing counter read; the reserved upper bits are dropped.
pub fn core_id_from_aux(aux: u32) -> (id: usize)
    ensures
        id as int == core_id_of(aux),
        id < 0x1000,
{
    let low: u32 = aux & CORE_ID_MASK;
    assert(low == aux % 0x1000) by (bit_vector)
        requires
            low == aux & 0xfff,
    ;
    low as usize
}

/// What a worker knows once it has tried to pin itself to `requested` and has
/// read the auxiliary value `aux`.
pub open spec fn pinning_verdict(requested: usize, affinity: Result<(), i32>, aux: u32) -> Result<
    (),
    WorkerFailure,
> {
    match affinity {
        Err(code) => Err(WorkerFailure::Affinity { os_error: code }),
        Ok(_) => if core_id_of(aux) == requested as int {
            Ok(())
        } else {
            Err(
                WorkerFailure::CoreMismatch {
                    requested,
                    reported: core_id_of(aux) as usize,
                },
            )
        },
    }
}

/// Decides whether a worker may go on to calibrate: pinning must have
/// succeeded and the counter must report the very core that was asked for.
pub fn check_pinned(requested: usize, affinity: Result<(), i32>, aux: u32) -> (r: Result<
    (),
    WorkerFailure,
>)
    ensures
        r == pinning_verdict(requested, affinity, aux),
{
    match affinity {
        Err(code) => Err(WorkerFailure::Affinity { os_error: code }),
        Ok(_) => {
            let reported = core_id_from_aux(aux);
            if reported == requested {
                Ok(())
            } else {
                Err(WorkerFailure::CoreMismatch { requested, reported })
            }
        },
    }
}

/// The smallest rate among `reports`; `u64::MAX` where there is none.
pub open spec fn min_rate(reports: Seq<CoreCalibration>) -> u64
    decreases reports.len(),
{
    if reports.len() == 0 {
        u64::MAX
    } else {
        let rest = min_rate(reports.drop_last());
        let last = reports.last().cycles_per_second;
        if last < rest {
            last
        } else {
            rest
        }
    }
}

/// The largest rate among `reports`; zero where there is none.
pub open spec fn max_rate(reports: Seq<CoreCalibration>) -> u64
    decreases reports.len(),
{
    if reports.len() == 0 {
        0
    } else {
        let rest = max_rate(reports.drop_last());
        let last = reports.last().cycles_per_second;
        if last > rest {
            last
        } else {
            rest
        }
    }
}

/// The sum of the rates of `reports`.
pub open spec fn sum_rates(reports: Seq<CoreCalibration>) -> nat
    decreases reports.len(),
{
    if reports.len() == 0 {
        0
    } else {
        sum_rates(reports.drop_last()) + reports.last().cycles_per_second as nat
    }
}

/// The largest core identifier among `reports`; zero where there is none.
pub open spec fn max_cpuid(reports: Seq<CoreCalibration>) -> usize
    decreases reports.len(),
{
    if reports.len() == 0 {
        0
    } else {
        let rest = max_cpuid(reports.drop_last());
        let last = reports.last().cpuid;
        if last > rest {
            last
        } else {
            rest
        }
    }
}

/// The offset that the table holds for `core`: that of the last report for
/// this core, and zero where no report names it.
pub open spec fn slot(reports: Seq<CoreCalibration>, core: int) -> u64
    decreases reports.len(),
{
    if reports.len() == 0 {
        0
    } else if reports.last().cpuid as int == core {
        reports.last().cycles_from_anchor
    } else {
        slot(reports.drop_last(), core)
    }
}

/// True when the fastest and the slowest rate are further apart than one part
/// in `SPREAD_DIVISOR` of the slowest.
pub open spec fn spread_too_wide(lo: u64, hi: u64) -> bool {
    (hi - lo) * SPREAD_DIVISOR > lo
}

/// The level that a complete set of per-core calibrations amounts to.
pub open spec fn merged(reports: Seq<CoreCalibration>) -> LevelModel {
    if reports.len() == 0 || spread_too_wide(min_rate(reports), max_rate(reports)) {
        LevelModel::Unstable
    } else {
        LevelModel::PerCore {
            rate: (sum_rates(reports) / reports.len()) as u64,
            offsets: Seq::new((max_cpuid(reports) + 1) as nat, |core: int| slot(reports, core)),
        }
    }
}

/// The level that the workers' outcomes amount to: a single failure makes the
/// counter unusable, whatever the other workers found.
pub open spec fn orchestrated(outcomes: Seq<Result<CoreCalibration, WorkerFailure>>) -> LevelModel {
    if exists|i: int| 0 <= i < outcomes.len() && outcomes[i] is Err {
        LevelModel::Unstable
    } else {
        merged(reports_of(outcomes))
    }
}

/// Once there is a report, the minimum lies at or below the maximum, and the
/// truncated average is a rate again.
pub proof fn lemma_rate_bounds(reports: Seq<CoreCalibration>)
    requires
        reports.len() > 0,
    ensures
        min_rate(reports) <= max_rate(reports),
        sum_rates(reports) / reports.len() <= u64::MAX,
    decreases reports.len(),
{
    let rest = reports.drop_last();
    if rest.len() > 0 {
        lemma_rate_bounds(rest);
    }
    lemma_sum_bound(reports);
    let n = reports.len() as int;
    let s = sum_rates(reports) as int;
    let m = u64::MAX as int;
    assert(s / n <= m) by (nonlinear_arith)
        requires
            n > 0,
            0 <= s <= n * m,
    ;
}

/// A sum of `n` rates is at most `n` times the largest value a rate can take.
pub proof fn lemma_sum_bound(reports: Seq<CoreCalibration>)
    ensures
        sum_rates(reports) <= reports.len() * u64::MAX,
    decreases reports.len(),
{
    if reports.len() > 0 {
        lemma_sum_bound(reports.drop_last());
        let n = reports.len() as int;
        let m = u64::MAX as int;
        assert((n - 1) * m + m == n * m) by (nonlinear_arith);
    }
}

/// Cross-checks a complete set of per-core calibrations and merges them. The
/// cores must agree on the rate within one part in `SPREAD_DIVISOR`; the merged
/// rate is the truncated average, and the table has one slot for every
/// identifier up to the largest one.
pub fn merge(reports: &Vec<CoreCalibration>) -> (level: TSCLevel)
    requires
        forall|i: int| 0 <= i < reports.len() ==> (#[trigger] reports[i]).cpuid < usize::MAX,
    ensures
        level@ == merged(reports@),
{
    let n: usize = reports.len();
    if n == 0 {
        return TSCLevel::Unstable;
    }
    let mut lo: u64 = u64::MAX;
    let mut hi: u64 = 0;
    let mut total: u128 = 0;
    let mut top: usize = 0;
    let mut i: usize = 0;
    while i < n
        invariant
            n == reports.len(),
            0 <= i <= n,
            lo == min_rate(reports@.take(i as int)),
            hi == max_rate(reports@.take(i as int)),
            total == sum_rates(reports@.take(i as int)),
            total <= i * u64::MAX,
            top == max_cpuid(reports@.take(i as int)),
            top < usize::MAX,
            forall|k: int| 0 <= k < reports.len() ==> (#[trigger] reports[k]).cpuid < usize::MAX,
        decreases n - i,
    {
        let r = &reports[i];
        proof {
            assert(reports@.take(i as int + 1).drop_last() =~= reports@.take(i as int));
            assert(reports@.take(i as int + 1).last() == reports[i as int]);
            lemma_sum_bound(reports@.take(i as int + 1));
        }
        if r.cycles_per_second < lo {
            lo = r.cycles_per_second;
        }
        if r.cycles_per_second > hi {
            hi = r.cycles_per_second;
        }
        if r.cpuid > top {
            top = r.cpuid;
        }
        assert(i * u64::MAX + u64::MAX <= usize::MAX * u64::MAX + u64::MAX) by (nonlinear_arith)
            requires
                i <= usize::MAX,
        ;
        total = total + r.cycles_per_second as u128;
        i = i + 1;
    }
    proof {
        assert(reports@.take(n as int) =~= reports@);
        lemma_rate_bounds(reports@);
    }
    let gap: u128 = (hi - lo) as u128;
    let divisor: u128 = SPREAD_DIVISOR as u128;
    assert(gap * divisor <= u64::MAX * 2000) by (nonlinear_arith)
        requires
            gap <= u64::MAX,
            divisor == 2000,
    ;
    if gap * divisor > lo as u128 {
        return TSCLevel::Unstable;
    }
    let rate: u64 = (total / (n as u128)) as u64;
    let mut table: Vec<u64> = Vec::new();
    let mut k: usize = 0;
    while k <= top
        invariant
            top < usize::MAX,
            0 <= k <= top + 1,
            table@ =~= Seq::new(k as nat, |core: int| 0u64),
        decreases top + 1 - k,
    {
        table.push(0);
        k = k + 1;
    }
    let mut j: usize = 0;
    while j < n
        invariant
            n == reports.len(),
            0 <= j <= n,
            top == max_cpuid(reports@),
            table@.len() == top + 1,
            forall|core: int|
                0 <= core < table@.len() ==> table@[core] == slot(reports@.take(j as int), core),
        decreases n - j,
    {
        let r = &reports[j];
        proof {
            lemma_cpuid_within(reports@, j as int);
            assert(reports@.take(j as int + 1).drop_last() =~= reports@.take(j as int));
            assert(reports@.take(j as int + 1).last() == reports[j as int]);
        }
        table.set(r.cpuid, r.cycles_from_anchor);
        j = j + 1;
    }
    proof {
        assert(reports@.take(n as int) =~= reports@);
        assert(table@ =~= Seq::new((top + 1) as nat, |core: int| slot(reports@, core)));
    }
    TSCLevel::PerCPUStable { cycles_per_second: rate, cycles_from_anchor: table }
}

/// No report names a core beyond the largest identifier.
pub proof fn lemma_cpuid_within(reports: Seq<CoreCalibration>, i: int)
    requires
        0 <= i < reports.len(),
    ensures
        reports[i].cpuid <= max_cpuid(reports),
    decreases reports.len(),
{
    if i < reports.len() - 1 {
        lemma_cpuid_within(reports.drop_last(), i);
    }
}

/// The calibrations that `outcomes` hold, in order, where every worker gave one.
pub open spec fn reports_of(outcomes: Seq<Result<CoreCalibration, WorkerFailure>>) -> Seq<
    CoreCalibration,
> {
    outcomes.map_values(|o: Result<CoreCalibration, WorkerFailure>| o->Ok_0)
}

/// Fans the workers' outcomes in: partial results are never used, so one
/// failed worker makes the counter unusable; otherwise the calibrations are
/// cross-checked and merged.
pub fn orchestrate(outcomes: &Vec<Result<CoreCalibration, WorkerFailure>>) -> (level: TSCLevel)
    requires
        forall|i: int|
            0 <= i < outcomes.len() && (#[trigger] outcomes[i]) is Ok ==> (outcomes[i]->Ok_0).cpuid
                < usize::MAX,
    ensures
        level@ == orchestrated(outcomes@),
{
    let n: usize = outcomes.len();
    let mut reports: Vec<CoreCalibration> = Vec::new();
    let mut i: usize = 0;
    while i < n
        invariant
            n == outcomes.len(),
            0 <= i <= n,
            forall|k: int| 0 <= k < i ==> (#[trigger] outcomes[k]) is Ok,
            reports@ =~= reports_of(outcomes@.take(i as int)),
        decreases n - i,
    {
        match &outcomes[i] {
            Ok(report) => {
                reports.push(*report);
            },
            Err(_) => {
                assert(outcomes@[i as int] is Err);
                return TSCLevel::Unstable;
            },
        }
        i = i + 1;
    }
    assert(outcomes@.take(n as int) =~= outcomes@);
    merge(&reports)
}

/// A worker that finds itself on another core than the one it asked for fails,
/// and its failure makes the whole orchestration unusable: no table is built
/// from the other workers' results.
pub proof fn lemma_mismatch_fails_all(
    outcomes: Seq<Result<CoreCalibration, WorkerFailure>>,
    worker: int,
    requested: usize,
    aux: u32,
)
    requires
        0 <= worker < outcomes.len(),
        core_id_of(aux) != requested as int,
        outcomes[worker] is Err,
        Err::<(), WorkerFailure>(outcomes[worker]->Err_0) == pinning_verdict(
            requested,
            Ok(()),
            aux,
        ),
    ensures
        outcomes[worker]->Err_0 == (WorkerFailure::CoreMismatch {
            requested,
            reported: core_id_of(aux) as usize,
        }),
        orchestrated(outcomes) == LevelModel::Unstable,
{
}

/// Whatever failed, a failed worker leaves the counter unusable.
pub proof fn lemma_failure_fails_all(
    outcomes: Seq<Result<CoreCalibration, WorkerFailure>>,
    worker: int,
)
    requires
        0 <= worker < outcomes.len(),
        outcomes[worker] is Err,
    ensures
        orchestrated(outcomes) == LevelModel::Unstable,
{
}

} // verus!
