//! Alignment of a counter to the anchor instant.

use vstd::prelude::*;
use crate::level::wrapping_diff;

verus! {

/// Nanoseconds in one second.
pub const NANOS_PER_SECOND: u64 = 1_000_000_000;

/// One reading of the monotonic clock together with the cycle counter. The
/// clock is expressed in nanoseconds since the anchor instant.
#[derive(Clone, Copy, Debug, PartialEq, Eq)]
pub struct Sample {
    pub nanos: u64,
    pub tsc: u64,
}

/// The cycles that a counter of rate `cycles_per_second` ticks in `nanos`
/// nanoseconds, rounded up to a whole cycle.
pub open spec fn cycles_elapsed(cycles_per_second: u64, nanos: u64) -> nat {
    ((cycles_per_second * nanos + (NANOS_PER_SECOND - 1)) / (NANOS_PER_SECOND as int)) as nat
}

/// Computes how many cycles the counter ticks between the anchor and `nanos`
/// nanoseconds after it.
pub fn elapsed_since_anchor(cycles_per_second: u64, nanos: u64) -> (cycles: u128)
    ensures
        cycles == cycles_elapsed(cycles_per_second, nanos),
{
    assert(cycles_per_second * nanos <= u64::MAX * u64::MAX) by (nonlinear_arith);
    let product: u128 = cycles_per_second as u128 * nanos as u128;
    (product + (NANOS_PER_SECOND as u128 - 1)) / (NANOS_PER_SECOND as u128)
}

/// Returns the rate together with the counter value that stands for the anchor
/// instant: the sampled counter less the cycles that passed between the anchor
/// and the sample. Subtracting that value from a later reading of the same
/// counter gives the cycles since the anchor.
///
/// The counter must have been running at the anchor: the cycles since the
/// anchor may not exceed the sampled counter value.
pub fn cycles_per_sec(cycles_per_second: u64, last: Sample) -> (r: (u64, u64))
    requires
        cycles_elapsed(cycles_per_second, last.nanos) <= last.tsc,
    ensures
        r.0 == cycles_per_second,
        r.1 == last.tsc - cycles_elapsed(cycles_per_second, last.nanos),
{
    let flown: u128 = elapsed_since_anchor(cycles_per_second, last.nanos);
    (cycles_per_second, last.tsc - (flown as u64))
}

/// On a counter that ticks at exactly `cycles_per_second` between the sample
/// and a later reading, the later reading less the anchor value is the true
/// number of cycles since the anchor, rounded up: it never falls short, and
/// it exceeds by less than one cycle.
pub proof fn lemma_anchor_consistent(cycles_per_second: u64, at: Sample, later: Sample)
    requires
        cycles_elapsed(cycles_per_second, at.nanos) <= at.tsc,
        at.nanos <= later.nanos,
        at.tsc <= later.tsc,
        (later.tsc - at.tsc) * NANOS_PER_SECOND == cycles_per_second * (later.nanos - at.nanos),
    ensures
        ({
            let from_anchor = (at.tsc - cycles_elapsed(cycles_per_second, at.nanos)) as u64;
            let seen = wrapping_diff(later.tsc, from_anchor);
            &&& seen == later.tsc - from_anchor
            &&& cycles_per_second * later.nanos <= seen * NANOS_PER_SECOND
            &&& seen * NANOS_PER_SECOND < cycles_per_second * later.nanos + NANOS_PER_SECOND
        }),
{
    let n = NANOS_PER_SECOND as int;
    let x = cycles_per_second as int * at.nanos as int;
    let up = cycles_elapsed(cycles_per_second, at.nanos) as int;
    assert(0 <= x) by (nonlinear_arith)
        requires
            x == cycles_per_second as int * at.nanos as int,
    ;
    assert(x <= up * n < x + n) by (nonlinear_arith)
        requires
            0 <= x,
            n == 1_000_000_000,
            up == (x + (n - 1)) / n,
    ;
    let d = later.tsc - at.tsc;
    let c = cycles_per_second as int;
    let tl = later.nanos as int;
    let ts = at.nanos as int;
    assert((d + up) * n == c * tl - x + up * n) by (nonlinear_arith)
        requires
            d * n == c * (tl - ts),
            x == c * ts,
    ;
}

} // verus!
