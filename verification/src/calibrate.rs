//! Measuring the counter's frequency by convergence.
//!
//! The counter is sampled against the monotonic clock over successive windows
//! of at least ten milliseconds. Each window gives an estimate of the rate;
//! the measurement ends with the first estimate that differs from the one
//! before it by less than one part in a hundred thousand.
//!
//! An estimate is the exact ratio of cycles to nanoseconds, so nothing is lost
//! to rounding before the final result.

use vstd::prelude::*;
use crate::anchor::Sample;
use crate::anchor::NANOS_PER_SECOND;

verus! {

/// The shortest sampling window, in nanoseconds; a window must be longer.
pub const MIN_WINDOW_NANOS: u64 = 10_000_000;

/// Two successive estimates agree when they differ by less than one part in
/// `TOLERANCE_DIVISOR` of the newer one.
pub const TOLERANCE_DIVISOR: u64 = 100_000;

/// The state of a measurement between two samples.
#[derive(Clone, Copy, Debug, PartialEq, Eq)]
pub struct Calibrator {
    /// The sample that opened the current window, if one is open.
    pub start: Option<Sample>,
    /// Cycles counted over the last complete window; zero before the first.
    pub prev_cycles: u64,
    /// The length of the last complete window; one before the first, so that
    /// the previous estimate reads as zero.
    pub prev_nanos: u64,
}

/// True when the estimate `cycles / nanos` differs from the previous estimate
/// `prev_cycles / prev_nanos` by less than the tolerance, relative to the new
/// estimate. An estimate of zero never agrees with anything.
pub open spec fn converged(cycles: u64, nanos: u64, prev_cycles: u64, prev_nanos: u64) -> bool {
    let new_scaled = cycles * prev_nanos;
    let old_scaled = prev_cycles * nanos;
    let delta = if new_scaled >= old_scaled {
        new_scaled - old_scaled
    } else {
        old_scaled - new_scaled
    };
    delta * TOLERANCE_DIVISOR < new_scaled
}

/// The rate in cycles per second of `cycles` counted over `nanos` nanoseconds,
/// rounded to the nearest integer (halves upward) and capped at `u64::MAX`.
pub open spec fn rounded_rate(cycles: u64, nanos: u64) -> u64
    recommends
        nanos > 0,
{
    let nearest = (2 * cycles * NANOS_PER_SECOND + nanos) / (2 * nanos);
    if nearest > u64::MAX {
        u64::MAX
    } else {
        nearest as u64
    }
}

/// True when `sample` may follow the state `c`: neither the clock nor the
/// counter has gone backwards since the current window was opened.
pub open spec fn follows(c: Calibrator, sample: Sample) -> bool {
    c.start is Some ==> c.start->0.nanos <= sample.nanos && c.start->0.tsc <= sample.tsc
}

/// The state after `sample` and the result, if the measurement ends with it.
pub open spec fn step(c: Calibrator, sample: Sample) -> (Calibrator, Option<(u64, Sample)>) {
    match c.start {
        None => (Calibrator { start: Some(sample), ..c }, None),
        Some(first) => {
            let nanos = (sample.nanos - first.nanos) as u64;
            let cycles = (sample.tsc - first.tsc) as u64;
            if nanos <= MIN_WINDOW_NANOS {
                (c, None)
            } else {
                let next = Calibrator { start: None, prev_cycles: cycles, prev_nanos: nanos };
                if converged(cycles, nanos, c.prev_cycles, c.prev_nanos) {
                    (next, Some((rounded_rate(cycles, nanos), sample)))
                } else {
                    (next, None)
                }
            }
        },
    }
}

/// The result of feeding `samples` in order to a measurement in state `c`:
/// that of the first sample that ends it.
pub open spec fn run(c: Calibrator, samples: Seq<Sample>) -> Option<(u64, Sample)>
    decreases samples.len(),
{
    if samples.len() == 0 {
        None
    } else {
        let (next, out) = step(c, samples[0]);
        if out is Some {
            out
        } else {
            run(next, samples.drop_first())
        }
    }
}

/// True when neither the clock nor the counter ever goes backwards in `samples`.
pub open spec fn monotonic(samples: Seq<Sample>) -> bool {
    forall|i: int, j: int|
        0 <= i <= j < samples.len() ==> samples[i].nanos <= samples[j].nanos && samples[i].tsc
            <= samples[j].tsc
}

impl Calibrator {
    /// True when the recorded window has a length.
    pub open spec fn wf(&self) -> bool {
        self.prev_nanos > 0
    }

    /// A measurement that has seen no sample: the previous estimate is zero.
    pub fn new() -> (c: Calibrator)
        ensures
            c == (Calibrator { start: None, prev_cycles: 0, prev_nanos: 1 }),
            c.wf(),
    {
        Calibrator { start: None, prev_cycles: 0, prev_nanos: 1 }
    }

    /// Takes one more sample. The first sample opens a window. Later samples
    /// are polled until the window is longer than `MIN_WINDOW_NANOS`; the
    /// sample that completes it yields an estimate. If the estimate agrees
    /// with the previous one, the measurement ends with the rounded rate and
    /// that sample; otherwise the estimate is kept and the next sample opens a
    /// new window.
    pub fn feed(&mut self, sample: Sample) -> (out: Option<(u64, Sample)>)
        requires
            old(self).wf(),
            follows(*old(self), sample),
        ensures
            final(self).wf(),
            (*final(self), out) == step(*old(self), sample),
    {
        match self.start {
            None => {
                self.start = Some(sample);
                None
            },
            Some(first) => {
                let nanos: u64 = sample.nanos - first.nanos;
                let cycles: u64 = sample.tsc - first.tsc;
                if nanos <= MIN_WINDOW_NANOS {
                    None
                } else {
                    let agreed = estimates_agree(cycles, nanos, self.prev_cycles, self.prev_nanos);
                    self.start = None;
                    self.prev_cycles = cycles;
                    self.prev_nanos = nanos;
                    if agreed {
                        Some((round_rate(cycles, nanos), sample))
                    } else {
                        None
                    }
                }
            },
        }
    }
}

/// Decides whether two successive estimates agree within the tolerance.
pub fn estimates_agree(cycles: u64, nanos: u64, prev_cycles: u64, prev_nanos: u64) -> (r: bool)
    ensures
        r == converged(cycles, nanos, prev_cycles, prev_nanos),
{
    assert(cycles * prev_nanos <= u64::MAX * u64::MAX) by (nonlinear_arith);
    assert(prev_cycles * nanos <= u64::MAX * u64::MAX) by (nonlinear_arith);
    let new_scaled: u128 = cycles as u128 * prev_nanos as u128;
    let old_scaled: u128 = prev_cycles as u128 * nanos as u128;
    let delta: u128 = if new_scaled >= old_scaled {
        new_scaled - old_scaled
    } else {
        old_scaled - new_scaled
    };
    if new_scaled == 0 {
        assert(delta * TOLERANCE_DIVISOR >= 0) by (nonlinear_arith);
        return false;
    }
    let limit: u128 = (new_scaled - 1) / (TOLERANCE_DIVISOR as u128);
    assert((delta <= limit) == (delta * 100_000 < new_scaled)) by (nonlinear_arith)
        requires
            new_scaled > 0,
            limit == (new_scaled - 1) / 100_000,
    ;
    delta <= limit
}

/// Rounds the estimate `cycles / nanos` to whole cycles per second.
pub fn round_rate(cycles: u64, nanos: u64) -> (r: u64)
    requires
        nanos > 0,
    ensures
        r == rounded_rate(cycles, nanos),
{
    assert(2 * cycles * NANOS_PER_SECOND + nanos <= 2 * u64::MAX * 1_000_000_000 + u64::MAX)
        by (nonlinear_arith)
        requires
            NANOS_PER_SECOND == 1_000_000_000,
    ;
    let twice: u128 = 2 * (cycles as u128) * (NANOS_PER_SECOND as u128) + nanos as u128;
    let nearest: u128 = twice / (2 * (nanos as u128));
    if nearest > u64::MAX as u128 {
        u64::MAX
    } else {
        nearest as u64
    }
}

/// Runs a whole measurement over an injected sequence of samples, and returns
/// the rate with the sample that ended the measurement, or `None` where the
/// samples run out before two successive estimates agree.
pub fn _calculate_cycles_per_sec(samples: &Vec<Sample>) -> (r: Option<(u64, Sample)>)
    requires
        monotonic(samples@),
    ensures
        r == run(Calibrator { start: None, prev_cycles: 0, prev_nanos: 1 }, samples@),
{
    let mut state = Calibrator::new();
    let ghost initial = state;
    let n: usize = samples.len();
    let mut i: usize = 0;
    assert(samples@.skip(0) =~= samples@);
    while i < n
        invariant
            n == samples.len(),
            0 <= i <= n,
            state.wf(),
            monotonic(samples@),
            initial == (Calibrator { start: None, prev_cycles: 0, prev_nanos: 1 }),
            state.start is Some ==> exists|k: int| 0 <= k < i && samples[k] == state.start->0,
            run(initial, samples@) == run(state, samples@.skip(i as int)),
        decreases n - i,
    {
        let sample = samples[i];
        let ghost before = state;
        proof {
            assert(samples@.skip(i as int)[0] == sample);
            assert(samples@.skip(i as int).drop_first() =~= samples@.skip(i as int + 1));
        }
        let out = state.feed(sample);
        assert((state, out) == step(before, samples@.skip(i as int)[0]));
        if out.is_some() {
            return out;
        }
        proof {
            if state.start is Some {
                if before.start is None {
                    assert(samples[i as int] == state.start->0);
                } else {
                    assert(state.start == before.start);
                }
            }
        }
        i = i + 1;
    }
    assert(samples@.skip(n as int).len() == 0);
    None
}

/// The slowest counter for which one cycle more or less over the shortest
/// window stays within the tolerance.
pub const MIN_STEADY_RATE: u64 = 21_000_000;

/// True when a counter of `rate` cycles per second, read at whole cycles,
/// can have counted `cycles` over `nanos` nanoseconds: the count is within
/// one cycle of the exact product.
pub open spec fn steady(rate: u64, cycles: u64, nanos: u64) -> bool {
    -NANOS_PER_SECOND <= cycles * NANOS_PER_SECOND - rate * nanos <= NANOS_PER_SECOND
}

/// True when `found` is `rate` within the tolerance.
pub open spec fn within_tolerance(found: u64, rate: u64) -> bool {
    -rate <= (found - rate) * TOLERANCE_DIVISOR <= rate
}

/// Two windows over a counter of constant rate give estimates that agree.
pub proof fn lemma_steady_windows_agree(
    rate: u64,
    cycles: u64,
    nanos: u64,
    prev_cycles: u64,
    prev_nanos: u64,
)
    requires
        rate >= MIN_STEADY_RATE,
        nanos > MIN_WINDOW_NANOS,
        prev_nanos > MIN_WINDOW_NANOS,
        steady(rate, cycles, nanos),
        steady(rate, prev_cycles, prev_nanos),
    ensures
        converged(cycles, nanos, prev_cycles, prev_nanos),
{
    let n = NANOS_PER_SECOND as int;
    let t = TOLERANCE_DIVISOR as int;
    let w = MIN_WINDOW_NANOS as int;
    let r = rate as int;
    let e = nanos as int;
    let pe = prev_nanos as int;
    let u = cycles * n - r * e;
    let v = prev_cycles * n - r * pe;
    let a = cycles as int * pe;
    let b = prev_cycles as int * e;
    assert(n * (a - b) == u * pe - v * e) by (nonlinear_arith)
        requires
            u == cycles * n - r * e,
            v == prev_cycles * n - r * pe,
            a == cycles as int * pe,
            b == prev_cycles as int * e,
    ;
    assert(-n * pe <= u * pe <= n * pe) by (nonlinear_arith)
        requires
            -n <= u <= n,
            pe > 0,
    ;
    assert(-n * e <= v * e <= n * e) by (nonlinear_arith)
        requires
            -n <= v <= n,
            e > 0,
    ;
    assert(-(pe + e) <= a - b <= pe + e) by (nonlinear_arith)
        requires
            -n * (pe + e) <= n * (a - b) <= n * (pe + e),
            n > 0,
    ;
    let rep = r * e * pe;
    assert(a * n == u * pe + rep) by (nonlinear_arith)
        requires
            u == cycles * n - r * e,
            a == cycles as int * pe,
            rep == r * e * pe,
    ;
    assert(2 * rep >= r * w * (e + pe)) by (nonlinear_arith)
        requires
            rep == r * e * pe,
            e >= w,
            pe >= w,
            r >= 0,
            w >= 0,
    ;
    assert(r * w * (e + pe) >= 2 * n * (t + 1) * (e + pe)) by (nonlinear_arith)
        requires
            r >= 21_000_000,
            w == 10_000_000,
            n == 1_000_000_000,
            t == 100_000,
            e + pe > 0,
    ;
    let d = if a >= b {
        a - b
    } else {
        b - a
    };
    assert(n * (t * d) <= n * t * (pe + e)) by (nonlinear_arith)
        requires
            0 <= d <= pe + e,
            n > 0,
            t > 0,
    ;
    assert(2 * n * (t + 1) * (e + pe) == 2 * (n * t * (pe + e)) + 2 * n * e + 2 * n * pe)
        by (nonlinear_arith);
    assert(n * (t * d) < n * a) by (nonlinear_arith)
        requires
            2 * (a * n) >= 2 * rep - 2 * (n * pe),
            2 * rep >= 2 * (n * t * (pe + e)) + 2 * n * e + 2 * n * pe,
            n * (t * d) <= n * t * (pe + e),
            n * e > 0,
    ;
    assert(t * d < a) by (nonlinear_arith)
        requires
            n * (t * d) < n * a,
            n > 0,
    ;
    assert(d * t == t * d) by (nonlinear_arith);
}

/// The rounded estimate of a window over a counter of constant rate is the
/// rate within the tolerance.
pub proof fn lemma_steady_window_is_accurate(rate: u64, cycles: u64, nanos: u64)
    requires
        rate >= MIN_STEADY_RATE,
        nanos > MIN_WINDOW_NANOS,
        steady(rate, cycles, nanos),
    ensures
        within_tolerance(rounded_rate(cycles, nanos), rate),
        rate - 100 <= rounded_rate(cycles, nanos) <= rate + 100,
{
    let n = NANOS_PER_SECOND as int;
    let r = rate as int;
    let e = nanos as int;
    let x = cycles as int * n;
    let q = (2 * x + e) / (2 * e);
    assert(2 * cycles * NANOS_PER_SECOND + nanos == 2 * x + e) by (nonlinear_arith)
        requires
            x == cycles as int * n,
            n == NANOS_PER_SECOND as int,
            e == nanos as int,
    ;
    assert(q * (2 * e) <= 2 * x + e < (q + 1) * (2 * e)) by (nonlinear_arith)
        requires
            q == (2 * x + e) / (2 * e),
            e > 0,
    ;
    assert(q <= r + 100) by (nonlinear_arith)
        requires
            q * (2 * e) <= 2 * x + e,
            x <= r * e + n,
            n < 100 * e,
            e > 0,
    ;
    assert(q >= r - 100) by (nonlinear_arith)
        requires
            2 * x + e < (q + 1) * (2 * e),
            x >= r * e - n,
            n < 100 * e,
            e > 0,
    ;
}

/// On a counter of constant rate a measurement ends with its second window:
/// whenever a window completes after an earlier one, and the counter ticked
/// steadily over both, that sample ends the measurement, and the rate that
/// comes out is the true one within the tolerance.
pub proof fn lemma_steady_counter_converges(c: Calibrator, sample: Sample, rate: u64)
    requires
        c.start is Some,
        follows(c, sample),
        rate >= MIN_STEADY_RATE,
        c.prev_nanos > MIN_WINDOW_NANOS,
        sample.nanos - c.start->0.nanos > MIN_WINDOW_NANOS,
        steady(rate, c.prev_cycles, c.prev_nanos),
        steady(
            rate,
            (sample.tsc - c.start->0.tsc) as u64,
            (sample.nanos - c.start->0.nanos) as u64,
        ),
    ensures
        match step(c, sample).1 {
            Some(found) => found.1 == sample && within_tolerance(found.0, rate),
            None => false,
        },
{
    let cycles = (sample.tsc - c.start->0.tsc) as u64;
    let nanos = (sample.nanos - c.start->0.nanos) as u64;
    lemma_steady_windows_agree(rate, cycles, nanos, c.prev_cycles, c.prev_nanos);
    lemma_steady_window_is_accurate(rate, cycles, nanos);
}

/// The first window never ends a measurement: there is no earlier estimate
/// that it could agree with.
pub proof fn lemma_first_window_goes_on(cycles: u64, nanos: u64)
    ensures
        !converged(cycles, nanos, 0, 1),
{
    assert(cycles * 1 * TOLERANCE_DIVISOR >= cycles * 1) by (nonlinear_arith)
        requires
            TOLERANCE_DIVISOR >= 1,
    ;
}


/// Where the counts of two windows are the exact products of one rate above
/// zero and the windows' lengths, the two estimates agree and the rounded
/// estimate is that rate.
pub proof fn lemma_exact_windows_agree(
    rate: u64,
    cycles: u64,
    nanos: u64,
    prev_cycles: u64,
    prev_nanos: u64,
)
    requires
        rate > 0,
        nanos > 0,
        prev_nanos > 0,
        cycles * NANOS_PER_SECOND == rate * nanos,
        prev_cycles * NANOS_PER_SECOND == rate * prev_nanos,
    ensures
        converged(cycles, nanos, prev_cycles, prev_nanos),
        rounded_rate(cycles, nanos) == rate,
{
    let n = NANOS_PER_SECOND as int;
    let r = rate as int;
    let e = nanos as int;
    let pe = prev_nanos as int;
    let c = cycles as int;
    let pc = prev_cycles as int;
    let a = c * pe;
    let b = pc * e;
    assert(a * n == b * n) by (nonlinear_arith)
        requires
            c * n == r * e,
            pc * n == r * pe,
            a == c * pe,
            b == pc * e,
    ;
    assert(a == b) by (nonlinear_arith)
        requires
            a * n == b * n,
            n > 0,
    ;
    assert(c > 0) by (nonlinear_arith)
        requires
            c * n == r * e,
            r > 0,
            e > 0,
            n > 0,
            c >= 0,
    ;
    assert(a > 0) by (nonlinear_arith)
        requires
            a == c * pe,
            c > 0,
            pe > 0,
    ;
    assert(0 * TOLERANCE_DIVISOR == 0);
    let twice = 2 * cycles * NANOS_PER_SECOND + nanos;
    assert(twice == (2 * r + 1) * e) by (nonlinear_arith)
        requires
            twice == 2 * c * n + e,
            c * n == r * e,
    ;
    assert(twice / (2 * e) == r) by (nonlinear_arith)
        requires
            twice == (2 * r + 1) * e,
            e > 0,
    ;
}

/// Two windows are enough on a counter of constant rate: a measurement that
/// is fed the bounds of two windows, over both of which the counter ticked
/// steadily, ends with the fourth sample, and the rate that comes out is the
/// true one within the tolerance.
pub proof fn lemma_two_windows_suffice(
    first: Sample,
    second: Sample,
    third: Sample,
    fourth: Sample,
    rate: u64,
)
    requires
        rate >= MIN_STEADY_RATE,
        first.tsc <= second.tsc,
        third.tsc <= fourth.tsc,
        second.nanos - first.nanos > MIN_WINDOW_NANOS,
        fourth.nanos - third.nanos > MIN_WINDOW_NANOS,
        steady(rate, (second.tsc - first.tsc) as u64, (second.nanos - first.nanos) as u64),
        steady(rate, (fourth.tsc - third.tsc) as u64, (fourth.nanos - third.nanos) as u64),
    ensures
        match run(
            Calibrator { start: None, prev_cycles: 0, prev_nanos: 1 },
            seq![first, second, third, fourth],
        ) {
            Some(found) => found.1 == fourth && within_tolerance(found.0, rate),
            None => false,
        },
{
    let samples = seq![first, second, third, fourth];
    let c0 = Calibrator { start: None, prev_cycles: 0, prev_nanos: 1 };
    let c1 = step(c0, first).0;
    let c2 = step(c1, second).0;
    let c3 = step(c2, third).0;
    let s1 = samples.drop_first();
    let s2 = s1.drop_first();
    let s3 = s2.drop_first();
    assert(samples[0] == first && s1[0] == second && s2[0] == third && s3[0] == fourth);
    lemma_first_window_goes_on(
        (second.tsc - first.tsc) as u64,
        (second.nanos - first.nanos) as u64,
    );
    assert(step(c0, first).1 is None);
    assert(step(c1, second).1 is None);
    assert(step(c2, third).1 is None);
    lemma_steady_counter_converges(c3, fourth, rate);
    assert(run(c3, s3) == step(c3, fourth).1);
    assert(run(c2, s2) == run(c3, s3));
    assert(run(c1, s1) == run(c2, s2));
    assert(run(c0, samples) == run(c1, s1));
}


} // verus!
