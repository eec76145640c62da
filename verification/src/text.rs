//! Small tools for working on text as a sequence of characters.

use vstd::prelude::*;
use vstd::std_specs::iter::IteratorSpec;

verus! {

broadcast use vstd::string::group_string_axioms;

/// The characters of `s`, in order.
pub fn chars_of(s: &str) -> (v: Vec<char>)
    ensures
        v@ == s@,
{
    let mut out: Vec<char> = Vec::new();
    let mut it = s.chars();
    loop
        invariant
            it.obeys_prophetic_iter_laws(),
            it.decrease() is Some,
            out@ + it.remaining() == s@,
        ensures
            out@ == s@,
        decreases it.decrease()->0,
    {
        let ghost before = it.remaining();
        match it.next() {
            Some(c) => {
                out.push(c);
                assert(out@ + it.remaining() =~= (out@.drop_last() + before));
            },
            None => {
                assert(out@ + it.remaining() =~= out@);
                break;
            },
        }
    }
    out
}

/// The position of the first `c` in `s`, or the length of `s` where there is none.
pub open spec fn first_index(s: Seq<char>, c: char) -> int
    decreases s.len(),
{
    if s.len() == 0 || s[0] == c {
        0
    } else {
        1 + first_index(s.drop_first(), c)
    }
}

/// `first_index` is the one position before which `c` does not occur and at
/// which it does, unless the text ends there.
pub proof fn lemma_first_index(s: Seq<char>, c: char, k: int)
    requires
        0 <= k <= s.len(),
        forall|j: int| 0 <= j < k ==> s[j] != c,
        k == s.len() || s[k] == c,
    ensures
        first_index(s, c) == k,
    decreases s.len(),
{
    if k > 0 {
        lemma_first_index(s.drop_first(), c, k - 1);
    }
}

/// Finds the first `c` in `chars[from..to]`; returns `to` where there is none.
pub fn find(chars: &Vec<char>, from: usize, to: usize, c: char) -> (at: usize)
    requires
        from <= to <= chars.len(),
    ensures
        from <= at <= to,
        at - from == first_index(chars@.subrange(from as int, to as int), c),
{
    let mut at: usize = from;
    while at < to && chars[at] != c
        invariant
            from <= at <= to <= chars.len(),
            forall|j: int| from <= j < at ==> chars[j] != c,
        decreases to - at,
    {
        at = at + 1;
    }
    proof {
        lemma_first_index(chars@.subrange(from as int, to as int), c, at - from);
    }
    at
}

/// The characters that count as white space: those with the Unicode property
/// `White_Space`.
pub open spec fn is_space(c: char) -> bool {
    let n = c as u32;
    ||| 0x09 <= n <= 0x0d
    ||| n == 0x20
    ||| n == 0x85
    ||| n == 0xa0
    ||| n == 0x1680
    ||| 0x2000 <= n <= 0x200a
    ||| n == 0x2028
    ||| n == 0x2029
    ||| n == 0x202f
    ||| n == 0x205f
    ||| n == 0x3000
}

/// Tells whether `c` is white space.
pub fn char_is_space(c: char) -> (r: bool)
    ensures
        r == is_space(c),
{
    let n: u32 = c as u32;
    (0x09 <= n && n <= 0x0d) || n == 0x20 || n == 0x85 || n == 0xa0 || n == 0x1680 || (0x2000 <= n
        && n <= 0x200a) || n == 0x2028 || n == 0x2029 || n == 0x202f || n == 0x205f || n == 0x3000
}

/// `s` without its leading white space.
pub open spec fn trim_start(s: Seq<char>) -> Seq<char>
    decreases s.len(),
{
    if s.len() > 0 && is_space(s[0]) {
        trim_start(s.drop_first())
    } else {
        s
    }
}

/// `s` without its trailing white space.
pub open spec fn trim_end(s: Seq<char>) -> Seq<char>
    decreases s.len(),
{
    if s.len() > 0 && is_space(s.last()) {
        trim_end(s.drop_last())
    } else {
        s
    }
}

/// `s` without its leading and trailing white space.
pub open spec fn trimmed(s: Seq<char>) -> Seq<char> {
    trim_end(trim_start(s))
}

/// Finds where the text begins and ends once the white space around it is
/// set aside.
pub fn trim_bounds(chars: &Vec<char>) -> (r: (usize, usize))
    ensures
        r.0 <= r.1 <= chars.len(),
        chars@.subrange(r.0 as int, r.1 as int) == trimmed(chars@),
{
    let n: usize = chars.len();
    let mut lo: usize = 0;
    assert(chars@.subrange(0, n as int) =~= chars@);
    while lo < n && char_is_space(chars[lo])
        invariant
            n == chars.len(),
            0 <= lo <= n,
            trim_start(chars@) == trim_start(chars@.subrange(lo as int, n as int)),
        decreases n - lo,
    {
        assert(chars@.subrange(lo as int, n as int).drop_first() =~= chars@.subrange(
            lo as int + 1,
            n as int,
        ));
        lo = lo + 1;
    }
    let mut hi: usize = n;
    while hi > lo && char_is_space(chars[hi - 1])
        invariant
            n == chars.len(),
            0 <= lo <= hi <= n,
            trim_start(chars@) == chars@.subrange(lo as int, n as int),
            trimmed(chars@) == trim_end(chars@.subrange(lo as int, hi as int)),
        decreases hi - lo,
    {
        assert(chars@.subrange(lo as int, hi as int).drop_last() =~= chars@.subrange(
            lo as int,
            hi as int - 1,
        ));
        hi = hi - 1;
    }
    (lo, hi)
}


/// The characters that part the words of a list: white space, and the comma
/// where `commas` says so.
pub open spec fn is_separator(c: char, commas: bool) -> bool {
    is_space(c) || (commas && c == ',')
}

/// True when `word` stands in `s` from `i` to `j` as a whole word: what
/// precedes and what follows it, if anything, is a separator.
pub open spec fn word_at(s: Seq<char>, word: Seq<char>, commas: bool, i: int, j: int) -> bool {
    &&& 0 <= i <= j <= s.len()
    &&& s.subrange(i, j) == word
    &&& (i == 0 || is_separator(s[i - 1], commas))
    &&& (j == s.len() || is_separator(s[j], commas))
}

/// True when `word` is one of the words of `s`.
pub open spec fn has_word(s: Seq<char>, word: Seq<char>, commas: bool) -> bool {
    exists|i: int, j: int| word_at(s, word, commas, i, j)
}

/// True when `word` is not empty and holds no separator, so that it can be a
/// word of a list.
pub open spec fn is_word(word: Seq<char>, commas: bool) -> bool {
    &&& word.len() > 0
    &&& forall|k: int| 0 <= k < word.len() ==> !is_separator(#[trigger] word[k], commas)
}

/// Tells whether `c` parts the words of a list.
pub fn char_is_separator(c: char, commas: bool) -> (r: bool)
    ensures
        r == is_separator(c, commas),
{
    char_is_space(c) || (commas && c == ',')
}

/// Tells whether `chars[from..to]` equals `word`.
pub fn matches_at(chars: &Vec<char>, from: usize, to: usize, word: &Vec<char>) -> (r: bool)
    requires
        from <= to <= chars.len(),
    ensures
        r == (chars@.subrange(from as int, to as int) == word@),
{
    if to - from != word.len() {
        return false;
    }
    let n: usize = word.len();
    let mut k: usize = 0;
    while k < n
        invariant
            from <= to <= chars.len(),
            n == word.len(),
            n == to - from,
            0 <= k <= n,
            forall|m: int| 0 <= m < k ==> chars[from + m] == word[m],
        decreases n - k,
    {
        if chars[from + k] != word[k] {
            assert(chars@.subrange(from as int, to as int)[k as int] != word@[k as int]);
            return false;
        }
        k = k + 1;
    }
    assert(chars@.subrange(from as int, to as int) =~= word@);
    true
}

/// Tells whether `word` is one of the words of `chars[from..to]`.
pub fn contains_word(chars: &Vec<char>, from: usize, to: usize, word: &Vec<char>, commas: bool) -> (r:
    bool)
    requires
        from <= to <= chars.len(),
        is_word(word@, commas),
    ensures
        r == has_word(chars@.subrange(from as int, to as int), word@, commas),
{
    let ghost s = chars@.subrange(from as int, to as int);
    let mut pos: usize = from;
    while pos < to
        invariant
            from <= pos <= to <= chars.len(),
            s == chars@.subrange(from as int, to as int),
            is_word(word@, commas),
            pos == from || pos == to || is_separator(chars[pos as int - 1], commas) || is_separator(
                chars[pos as int],
                commas,
            ),
            forall|i: int, j: int| word_at(s, word@, commas, i, j) ==> i >= pos - from,
        decreases to - pos,
    {
        if char_is_separator(chars[pos], commas) {
            assert forall|i: int, j: int| word_at(s, word@, commas, i, j) implies i >= pos + 1
                - from by {
                if i == pos - from {
                    assert(s.subrange(i, j)[0] == word@[0]);
                    assert(s[i] == chars[pos as int]);
                }
            }
            pos = pos + 1;
        } else {
            let mut end: usize = pos;
            while end < to && !char_is_separator(chars[end], commas)
                invariant
                    pos <= end <= to <= chars.len(),
                    forall|m: int| pos <= m < end ==> !is_separator(chars[m], commas),
                decreases to - end,
            {
                end = end + 1;
            }
            let found = matches_at(chars, pos, end, word);
            if found && (pos == from || char_is_separator(chars[pos - 1], commas)) {
                proof {
                    assert(s.subrange(pos - from, end - from) =~= chars@.subrange(
                        pos as int,
                        end as int,
                    ));
                    assert(word_at(s, word@, commas, pos - from, end - from));
                }
                return true;
            }
            assert forall|i: int, j: int| word_at(s, word@, commas, i, j) implies i >= end
                - from by {
                if i < end - from {
                    assert(s.subrange(i, j)[0] == word@[0]);
                    assert(s[i] == chars[from + i]);
                    if i > pos - from {
                        assert(s[i - 1] == chars[from + i - 1]);
                    } else {
                        assert(i == pos - from);
                        if j < end - from {
                            assert(s[j] == chars[from + j]);
                        } else if j > end - from {
                            assert(s.subrange(i, j)[end - from - i] == word@[end - from - i]);
                            assert(s[end - from] == chars[end as int]);
                        } else {
                            assert(s.subrange(i, j) =~= chars@.subrange(pos as int, end as int));
                        }
                    }
                }
            }
            pos = end;
        }
    }
    assert(!has_word(s, word@, commas)) by {
        if has_word(s, word@, commas) {
            let (i, j) = choose|i: int, j: int| word_at(s, word@, commas, i, j);
            assert(word_at(s, word@, commas, i, j));
            assert(s.subrange(i, j).len() == word@.len());
        }
    }
    false
}


} // verus!
