//! The list format in which the kernel names a set of processors: numbers and
//! inclusive ranges of numbers, in decimal, separated by commas, as in
//! `0-2,7,12-14`.

use vstd::prelude::*;
use vstd::string::StrSliceExecFns;
use crate::number::NumberError;
use crate::number::number_of;
use crate::number::parse_decimal;
use crate::text::chars_of;
use crate::text::find;
use crate::text::first_index;
use crate::text::trim_bounds;
use crate::text::trimmed;

verus! {

/// An element of the list that is neither a number nor a range of numbers.
#[derive(Debug, PartialEq, Eq)]
pub struct CpuListError {
    /// The element as it stands in the list, between its commas.
    pub token: String,
    /// Why the first of its numbers that failed is no number.
    pub reason: NumberError,
}

/// Why the processors that are online are not known.
#[derive(Debug, PartialEq, Eq)]
pub enum CpuListReadError {
    /// The list could not be read; carries the system's error code, if any.
    FailedToRead(Option<i32>),
    /// The list was read, but an element of it makes no sense.
    FailedToParse(CpuListError),
}

/// `count` successive identifiers, the first of which is `first`.
pub open spec fn run_from(first: nat, count: nat) -> Seq<usize> {
    Seq::new(count, |i: int| (first + i) as usize)
}

/// The identifiers from `first` to `last`, both included; none where `first`
/// lies beyond `last`.
pub open spec fn span(first: nat, last: nat) -> Seq<usize> {
    if first > last {
        Seq::empty()
    } else {
        run_from(first, (last - first + 1) as nat)
    }
}

/// The identifiers that one element of the list denotes. An element with a
/// hyphen is a range, whose bounds lie before and after the first hyphen; any
/// other element is a single number.
pub open spec fn token_ids(token: Seq<char>) -> Result<Seq<usize>, NumberError> {
    let dash = first_index(token, '-');
    if dash < token.len() {
        match number_of(token.take(dash), usize::MAX as nat) {
            Err(e) => Err(e),
            Ok(first) => match number_of(token.skip(dash + 1), usize::MAX as nat) {
                Err(e) => Err(e),
                Ok(last) => Ok(span(first, last)),
            },
        }
    } else {
        match number_of(token, usize::MAX as nat) {
            Err(e) => Err(e),
            Ok(n) => Ok(seq![n as usize]),
        }
    }
}

/// `ids` followed by what `rest` holds, or the failure of `rest`.
pub open spec fn prepend(ids: Seq<usize>, rest: Result<Seq<usize>, (Seq<char>, NumberError)>)
    -> Result<Seq<usize>, (Seq<char>, NumberError)> {
    match rest {
        Ok(more) => Ok(ids + more),
        Err(e) => Err(e),
    }
}

/// The identifiers that the list `s` denotes, in the order in which it names
/// them, with nothing sorted or removed; or the first element that denotes
/// none, with the reason. The elements lie between the commas, so a list
/// always has at least one, and a comma at either end leaves an empty one.
pub open spec fn parse_list(s: Seq<char>) -> Result<Seq<usize>, (Seq<char>, NumberError)>
    decreases s.len(),
{
    let comma = first_index(s, ',');
    let token = s.take(comma);
    match token_ids(token) {
        Err(e) => Err((token, e)),
        Ok(ids) => if 0 <= comma < s.len() {
            prepend(ids, parse_list(s.skip(comma + 1)))
        } else {
            Ok(ids)
        },
    }
}

/// Reads one bound of a range, or a single identifier.
fn parse_id(chars: &Vec<char>, from: usize, to: usize) -> (r: Result<usize, NumberError>)
    requires
        from <= to <= chars.len(),
    ensures
        match number_of(chars@.subrange(from as int, to as int), usize::MAX as nat) {
            Ok(n) => r is Ok && r->Ok_0 == n,
            Err(e) => r == Err::<usize, NumberError>(e),
        },
{
    match parse_decimal(chars, from, to, usize::MAX as u64) {
        Ok(n) => Ok(n as usize),
        Err(e) => Err(e),
    }
}

/// Appends to `out` the identifiers that the element `chars[from..to]` denotes.
/// Nothing is appended where the element denotes none.
pub fn parse_token(chars: &Vec<char>, from: usize, to: usize, out: &mut Vec<usize>) -> (r: Result<
    (),
    NumberError,
>)
    requires
        from <= to <= chars.len(),
    ensures
        match token_ids(chars@.subrange(from as int, to as int)) {
            Ok(ids) => r is Ok && final(out)@ == old(out)@ + ids,
            Err(e) => r == Err::<(), NumberError>(e) && final(out)@ == old(out)@,
        },
{
    let ghost token = chars@.subrange(from as int, to as int);
    let ghost base = out@;
    let dash = find(chars, from, to, '-');
    if dash < to {
        proof {
            assert(token.take(dash - from) =~= chars@.subrange(from as int, dash as int));
            assert(token.skip(dash - from + 1) =~= chars@.subrange(dash as int + 1, to as int));
        }
        let first: usize = match parse_id(chars, from, dash) {
            Ok(n) => n,
            Err(e) => {
                return Err(e);
            },
        };
        let last: usize = match parse_id(chars, dash + 1, to) {
            Ok(n) => n,
            Err(e) => {
                return Err(e);
            },
        };
        if first <= last {
            let mut id: usize = first;
            assert(out@ =~= base + run_from(first as nat, 0));
            while id < last
                invariant
                    first <= id <= last,
                    out@ == base + run_from(first as nat, (id - first) as nat),
                decreases last - id,
            {
                out.push(id);
                assert(out@ =~= base + run_from(first as nat, (id + 1 - first) as nat));
                id = id + 1;
            }
            out.push(last);
            assert(out@ =~= base + span(first as nat, last as nat));
        } else {
            assert(out@ =~= base + span(first as nat, last as nat));
        }
        Ok(())
    } else {
        match parse_id(chars, from, to) {
            Ok(n) => {
                out.push(n);
                assert(out@ =~= base + seq![n]);
                Ok(())
            },
            Err(e) => Err(e),
        }
    }
}

/// Expands a list such as `0-2,7,12-14` into the identifiers that it names.
///
/// White space around the list is ignored. The identifiers come in the order
/// of the list; nothing is sorted and nothing is removed. A range whose first
/// bound lies beyond its last names nothing. The first element that is
/// neither a number nor a range of two numbers is returned as the error,
/// with the reason for which its first faulty number is none.
pub fn parse_cpu_list_format(list: &str) -> (r: Result<Vec<usize>, CpuListError>)
    ensures
        match parse_list(trimmed(list@)) {
            Ok(ids) => r is Ok && r->Ok_0@ == ids,
            Err(e) => r is Err && r->Err_0.token@ == e.0 && r->Err_0.reason == e.1,
        },
{
    let chars = chars_of(list);
    let (lo, hi) = trim_bounds(&chars);
    let mut res: Vec<usize> = Vec::new();
    let mut pos: usize = lo;
    assert(prepend(res@, parse_list(chars@.subrange(pos as int, hi as int))) =~= parse_list(
        trimmed(list@),
    )) by {
        let whole = parse_list(chars@.subrange(pos as int, hi as int));
        if whole is Ok {
            assert(res@ + whole->Ok_0 =~= whole->Ok_0);
        }
    }
    loop
        invariant
            chars@ == list@,
            lo <= pos <= hi <= chars.len(),
            prepend(res@, parse_list(chars@.subrange(pos as int, hi as int))) == parse_list(
                trimmed(list@),
            ),
        decreases hi - pos,
    {
        let ghost rest = chars@.subrange(pos as int, hi as int);
        let ghost before = res@;
        let end = find(&chars, pos, hi, ',');
        proof {
            assert(rest.take(end - pos) =~= chars@.subrange(pos as int, end as int));
            if end < hi {
                assert(rest.skip(end - pos + 1) =~= chars@.subrange(end as int + 1, hi as int));
            }
        }
        match parse_token(&chars, pos, end, &mut res) {
            Ok(_) => {},
            Err(reason) => {
                let token = list.substring_char(pos, end).to_owned();
                return Err(CpuListError { token, reason });
            },
        }
        if end == hi {
            proof {
                let ids = token_ids(rest.take(end - pos))->Ok_0;
                assert(parse_list(rest) == Ok::<Seq<usize>, (Seq<char>, NumberError)>(ids));
            }
            return Ok(res);
        }
        proof {
            let ids = token_ids(rest.take(end - pos))->Ok_0;
            let tail = parse_list(chars@.subrange(end as int + 1, hi as int));
            assert(parse_list(rest) == prepend(ids, tail));
            if tail is Ok {
                assert(before + (ids + tail->Ok_0) =~= (before + ids) + tail->Ok_0);
            }
        }
        pos = end + 1;
    }
}

/// The identifiers of the processors that are online. `online` is the
/// kernel's list of them, or the error code with which reading it failed.
pub fn available_cpus(online: Result<&str, Option<i32>>) -> (r: Result<Vec<usize>, CpuListReadError>)
    ensures
        match online {
            Err(code) => r == Err::<Vec<usize>, CpuListReadError>(
                CpuListReadError::FailedToRead(code),
            ),
            Ok(list) => match parse_list(trimmed(list@)) {
                Ok(ids) => r is Ok && r->Ok_0@ == ids,
                Err(e) => {
                    &&& r is Err
                    &&& r->Err_0 is FailedToParse
                    &&& r->Err_0->FailedToParse_0.token@ == e.0
                    &&& r->Err_0->FailedToParse_0.reason == e.1
                },
            },
        },
{
    match online {
        Err(code) => Err(CpuListReadError::FailedToRead(code)),
        Ok(list) => match parse_cpu_list_format(list) {
            Ok(ids) => Ok(ids),
            Err(e) => Err(CpuListReadError::FailedToParse(e)),
        },
    }
}


} // verus!
