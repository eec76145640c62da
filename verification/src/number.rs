//! Reading an unsigned decimal number.

use vstd::prelude::*;

verus! {

/// Why a piece of text is not a number.
#[derive(Clone, Copy, Debug, PartialEq, Eq)]
pub enum NumberError {
    /// The text is empty.
    Empty,
    /// The text holds something other than decimal digits after an optional
    /// leading plus sign, or nothing but the sign.
    InvalidDigit,
    /// The number is too large for the integer type.
    Overflow,
}

/// True for the ten decimal digits.
pub open spec fn is_digit(c: char) -> bool {
    '0' <= c <= '9'
}

/// The value of a decimal digit.
pub open spec fn digit_value(c: char) -> nat
    recommends
        is_digit(c),
{
    (c as u32 - '0' as u32) as nat
}

/// The value of a run of decimal digits; that of the empty run is zero.
pub open spec fn decimal_value(digits: Seq<char>) -> nat
    decreases digits.len(),
{
    if digits.len() == 0 {
        0
    } else {
        decimal_value(digits.drop_last()) * 10 + digit_value(digits.last())
    }
}

/// The number of decimal digits that `s` begins with.
pub open spec fn digit_run(s: Seq<char>) -> int
    decreases s.len(),
{
    if s.len() == 0 || !is_digit(s[0]) {
        0
    } else {
        1 + digit_run(s.drop_first())
    }
}

/// `s` without a leading plus sign.
pub open spec fn unsigned_part(s: Seq<char>) -> Seq<char> {
    if s.len() > 0 && s[0] == '+' {
        s.drop_first()
    } else {
        s
    }
}

/// The number that `s` denotes, if it is one no larger than `max`.
///
/// The text is read from the left, and the first fault decides: digits that
/// already exceed `max` are an overflow whatever follows them, and a
/// character that is no digit is invalid where the digits before it fit.
pub open spec fn number_of(s: Seq<char>, max: nat) -> Result<nat, NumberError> {
    let body = unsigned_part(s);
    let run = digit_run(body);
    if s.len() == 0 {
        Err(NumberError::Empty)
    } else if body.len() == 0 {
        Err(NumberError::InvalidDigit)
    } else if decimal_value(body.take(run)) > max {
        Err(NumberError::Overflow)
    } else if run < body.len() {
        Err(NumberError::InvalidDigit)
    } else {
        Ok(decimal_value(body))
    }
}

/// `digit_run` is the one position before which all are digits and at which
/// there is none, unless the text ends there.
pub proof fn lemma_digit_run(s: Seq<char>, k: int)
    requires
        0 <= k <= s.len(),
        forall|j: int| 0 <= j < k ==> is_digit(s[j]),
        k == s.len() || !is_digit(s[k]),
    ensures
        digit_run(s) == k,
    decreases s.len(),
{
    if k > 0 {
        lemma_digit_run(s.drop_first(), k - 1);
    }
}

/// The digits that `s` begins with are digits, and a longer run of digits
/// never has a smaller value than a shorter one.
pub proof fn lemma_digit_run_bounds(s: Seq<char>)
    ensures
        0 <= digit_run(s) <= s.len(),
        forall|j: int| 0 <= j < digit_run(s) ==> is_digit(s[j]),
        digit_run(s) < s.len() ==> !is_digit(s[digit_run(s)]),
    decreases s.len(),
{
    if !(s.len() == 0 || !is_digit(s[0])) {
        lemma_digit_run_bounds(s.drop_first());
        let k = digit_run(s.drop_first());
        assert forall|j: int| 0 <= j < k + 1 implies is_digit(s[j]) by {
            if j > 0 {
                assert(is_digit(s.drop_first()[j - 1]));
            }
        }
    }
}

/// Appending characters to a run never lowers its value.
pub proof fn lemma_value_grows(s: Seq<char>, i: int, k: int)
    requires
        0 <= i <= k <= s.len(),
    ensures
        decimal_value(s.take(i)) <= decimal_value(s.take(k)),
    decreases k - i,
{
    if i < k {
        lemma_value_grows(s, i, k - 1);
        assert(s.take(k).drop_last() =~= s.take(k - 1));
    }
}

/// Reads the number that `chars[from..to]` denotes, if it is one no larger
/// than `max`.
pub fn parse_decimal(chars: &Vec<char>, from: usize, to: usize, max: u64) -> (r: Result<
    u64,
    NumberError,
>)
    requires
        from <= to <= chars.len(),
    ensures
        match number_of(chars@.subrange(from as int, to as int), max as nat) {
            Ok(n) => r is Ok && r->Ok_0 == n && n <= max,
            Err(e) => r == Err::<u64, NumberError>(e),
        },
{
    let ghost text = chars@.subrange(from as int, to as int);
    if from == to {
        return Err(NumberError::Empty);
    }
    let start: usize = if chars[from] == '+' {
        from + 1
    } else {
        from
    };
    let ghost body = chars@.subrange(start as int, to as int);
    assert(body =~= unsigned_part(text));
    if start == to {
        return Err(NumberError::InvalidDigit);
    }
    let mut acc: u64 = 0;
    let mut at: usize = start;
    while at < to
        invariant
            from < to,
            start <= at <= to <= chars.len(),
            start < to,
            text == chars@.subrange(from as int, to as int),
            body == chars@.subrange(start as int, to as int),
            body == unsigned_part(text),
            forall|j: int| 0 <= j < at - start ==> is_digit(body[j]),
            acc == decimal_value(body.take(at - start)),
            acc <= max,
        decreases to - at,
    {
        let c: char = chars[at];
        assert(body[at - start] == c);
        if !(c >= '0' && c <= '9') {
            proof {
                lemma_digit_run(body, at - start);
            }
            return Err(NumberError::InvalidDigit);
        }
        let d: u64 = (c as u32 - '0' as u32) as u64;
        proof {
            assert(body.take(at - start + 1).drop_last() =~= body.take(at - start));
            assert(body.take(at - start + 1).last() == c);
        }
        if acc as u128 * 10 + d as u128 > max as u128 {
            proof {
                let k = digit_run(body);
                lemma_digit_run_bounds(body);
                assert(k >= at - start + 1) by {
                    if k < at - start + 1 {
                        assert(is_digit(body[k]));
                    }
                }
                lemma_value_grows(body.take(k), at - start + 1, k);
                assert(body.take(k).take(at - start + 1) =~= body.take(at - start + 1));
                assert(body.take(k).take(k) =~= body.take(k));
            }
            return Err(NumberError::Overflow);
        }
        acc = acc * 10 + d;
        at = at + 1;
    }
    proof {
        lemma_digit_run(body, to - start);
        assert(body.take(to - start) =~= body);
    }
    Ok(acc)
}

} // verus!
