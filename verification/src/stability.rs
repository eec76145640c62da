//! Classifying the counter from what the kernel says of it.
//!
//! Detection is best effort: a description that cannot be read, or that does
//! not say what is looked for, counts as the feature being absent.

use vstd::prelude::*;
use crate::text::chars_of;
use crate::text::contains_word;
use crate::text::find;
use crate::text::first_index;
use crate::text::has_word;
use crate::text::is_word;
use crate::text::matches_at;

verus! {

/// How the counter is to be calibrated.
#[derive(Clone, Copy, Debug, PartialEq, Eq, Structural)]
pub enum Stability {
    /// The kernel keeps the counter synchronized across all cores: one
    /// calibration serves them all.
    Global,
    /// Every core keeps a steady counter of its own: each is calibrated.
    PerCore,
    /// The counter cannot be trusted: nothing is calibrated.
    Unstable,
}

/// The name under which the kernel lists the cycle counter as a clock source.
pub open spec fn counter_source() -> Seq<char> {
    "tsc"@
}

/// The key that opens the line of processor features.
pub open spec fn flags_key() -> Seq<char> {
    "flags"@
}

/// True when the list of available clock sources names the cycle counter.
/// The names are parted by white space or commas.
pub open spec fn names_counter(clock_sources: Seq<char>) -> bool {
    has_word(clock_sources, counter_source(), true)
}

/// The first line of `text` that begins with the key of the feature line,
/// without its line feed; empty where no line does.
pub open spec fn flags_line(text: Seq<char>) -> Seq<char>
    decreases text.len(),
{
    let end = first_index(text, '\n');
    let line = text.take(end);
    if flags_key().is_prefix_of(line) {
        line
    } else if 0 <= end < text.len() {
        flags_line(text.skip(end + 1))
    } else {
        Seq::empty()
    }
}

/// True when the feature line of the processor description lists, as words
/// parted by white space, a counter of constant rate, a counter that does not
/// stop when the core idles, and the serializing read.
pub open spec fn lists_percpu_features(cpuinfo: Seq<char>) -> bool {
    let line = flags_line(cpuinfo);
    &&& has_word(line, "constant_tsc"@, false)
    &&& has_word(line, "nonstop_tsc"@, false)
    &&& has_word(line, "rdtscp"@, false)
}

/// The first probe: whether the kernel offers the cycle counter as a clock
/// source. `clock_sources` is the kernel's list of available sources, or
/// `None` where it could not be read.
pub fn is_tsc_stable(clock_sources: Option<&str>) -> (r: bool)
    ensures
        r == (clock_sources is Some && names_counter(clock_sources->0@)),
{
    match clock_sources {
        None => false,
        Some(text) => {
            let chars = chars_of(text);
            let word = chars_of("tsc");
            proof {
                reveal_strlit("tsc");
                assert(is_word(word@, true));
                assert(chars@.subrange(0, chars@.len() as int) =~= chars@);
            }
            contains_word(&chars, 0, chars.len(), &word, true)
        },
    }
}

/// Finds the feature line in `chars`: returns its bounds, which are equal
/// where there is no such line.
pub fn find_flags_line(chars: &Vec<char>) -> (r: (usize, usize))
    ensures
        r.0 <= r.1 <= chars.len(),
        chars@.subrange(r.0 as int, r.1 as int) == flags_line(chars@),
{
    let key = chars_of("flags");
    let n: usize = chars.len();
    let mut pos: usize = 0;
    assert(chars@.subrange(0, n as int) =~= chars@);
    loop
        invariant
            n == chars.len(),
            0 <= pos <= n,
            key@ == flags_key(),
            flags_line(chars@) == flags_line(chars@.subrange(pos as int, n as int)),
        decreases n - pos,
    {
        let ghost rest = chars@.subrange(pos as int, n as int);
        let end = find(chars, pos, n, '\n');
        proof {
            assert(rest.take(end - pos) =~= chars@.subrange(pos as int, end as int));
            if end < n {
                assert(rest.skip(end - pos + 1) =~= chars@.subrange(end as int + 1, n as int));
            }
        }
        let keyed = end - pos >= key.len() && matches_at(chars, pos, pos + key.len(), &key);
        proof {
            let line = chars@.subrange(pos as int, end as int);
            if end - pos >= key@.len() {
                assert(line.subrange(0, key@.len() as int) =~= chars@.subrange(
                    pos as int,
                    pos + key@.len(),
                ));
            }
            assert(keyed == flags_key().is_prefix_of(line));
        }
        if keyed {
            return (pos, end);
        }
        if end == n {
            assert(chars@.subrange(n as int, n as int) =~= Seq::<char>::empty());
            return (n, n);
        }
        pos = end + 1;
    }
}

/// The second probe: whether every core keeps a steady counter that can be
/// read together with the core's identifier. `cpuinfo` is the kernel's
/// description of the processors, or `None` where it could not be read.
pub fn is_tsc_percpu_stable(cpuinfo: Option<&str>) -> (r: bool)
    ensures
        r == (cpuinfo is Some && lists_percpu_features(cpuinfo->0@)),
{
    match cpuinfo {
        None => false,
        Some(text) => {
            let chars = chars_of(text);
            let (from, to) = find_flags_line(&chars);
            let constant = chars_of("constant_tsc");
            let nonstop = chars_of("nonstop_tsc");
            let serializing = chars_of("rdtscp");
            proof {
                reveal_strlit("constant_tsc");
                reveal_strlit("nonstop_tsc");
                reveal_strlit("rdtscp");
                assert(is_word(constant@, false));
                assert(is_word(nonstop@, false));
                assert(is_word(serializing@, false));
            }
            contains_word(&chars, from, to, &constant, false) && contains_word(
                &chars,
                from,
                to,
                &nonstop,
                false,
            ) && contains_word(&chars, from, to, &serializing, false)
        },
    }
}

/// The verdict of the two probes, the first of which wins.
pub open spec fn verdict(global: bool, per_core: bool) -> Stability {
    if global {
        Stability::Global
    } else if per_core {
        Stability::PerCore
    } else {
        Stability::Unstable
    }
}

/// Classifies the counter from the results of the two probes.
pub fn classify(global: bool, per_core: bool) -> (r: Stability)
    ensures
        r == verdict(global, per_core),
{
    if global {
        Stability::Global
    } else if per_core {
        Stability::PerCore
    } else {
        Stability::Unstable
    }
}

} // verus!
