//! Searching and cutting sequences of characters.

use vstd::prelude::*;
use crate::words::{is_space, is_whitespace};

verus! {

/// Whether `needle` stands in `hay` at position `i`.
pub open spec fn occurs_at(hay: Seq<char>, needle: Seq<char>, i: int) -> bool {
    0 <= i && i + needle.len() <= hay.len() && hay.subrange(i, i + needle.len()) == needle
}

/// The first position at or after `from` at which `needle` stands in `hay`, or
/// `hay.len() + 1` if there is none.
pub open spec fn first_occurrence(hay: Seq<char>, needle: Seq<char>, from: int) -> int
    decreases hay.len() + 1 - from,
{
    if from < 0 || from + needle.len() > hay.len() {
        (hay.len() + 1) as int
    } else if occurs_at(hay, needle, from) {
        from
    } else {
        first_occurrence(hay, needle, from + 1)
    }
}

/// Whether `needle` stands somewhere in `hay`.
pub open spec fn contains_sub(hay: Seq<char>, needle: Seq<char>) -> bool {
    first_occurrence(hay, needle, 0) <= hay.len()
}

/// The position of the first character of `s` at or after `from` that is not
/// white space, or `s.len()` if there is none.
pub open spec fn skip_spaces(s: Seq<char>, from: int) -> int
    decreases s.len() - from,
{
    if from >= s.len() {
        s.len() as int
    } else if !is_space(s[from]) {
        from
    } else {
        skip_spaces(s, from + 1)
    }
}

/// The position behind the last character of `s` before `to` that is not white
/// space, but not less than `low`.
pub open spec fn drop_spaces(s: Seq<char>, low: int, to: int) -> int
    decreases to - low,
{
    if to <= low {
        low
    } else if !is_space(s[to - 1]) {
        to
    } else {
        drop_spaces(s, low, to - 1)
    }
}

/// `s` without the white space at its two ends.
pub open spec fn trimmed(s: Seq<char>) -> Seq<char> {
    let a = skip_spaces(s, 0);
    let b = drop_spaces(s, a, s.len() as int);
    s.subrange(a, b)
}

/// The position of the first `sep` in `s` at or after `from`, or `s.len()` if there is none.
pub open spec fn next_sep(s: Seq<char>, sep: char, from: int) -> int
    decreases s.len() - from,
{
    if from >= s.len() {
        s.len() as int
    } else if s[from] == sep {
        from
    } else {
        next_sep(s, sep, from + 1)
    }
}

/// The pieces of `s` from `from` on, cut at every `sep`.
pub open spec fn pieces_from(s: Seq<char>, sep: char, from: int) -> Seq<Seq<char>>
    decreases s.len() - from,
{
    if from > s.len() || from < 0 {
        Seq::<Seq<char>>::empty()
    } else {
        let d = next_sep(s, sep, from);
        if d >= s.len() || d < from {
            seq![s.subrange(from, s.len() as int)]
        } else {
            seq![s.subrange(from, d)] + pieces_from(s, sep, d + 1)
        }
    }
}

/// The pieces of `s`, cut at every `sep`: one more than there are separators.
pub open spec fn pieces(s: Seq<char>, sep: char) -> Seq<Seq<char>> {
    pieces_from(s, sep, 0)
}

/// Whether `needle` stands in `hay` at position `i`.
pub fn matches_at(hay: &Vec<char>, needle: &Vec<char>, i: usize) -> (r: bool)
    ensures
        r == occurs_at(hay@, needle@, i as int),
{
    if needle.len() > hay.len() || i > hay.len() - needle.len() {
        return false;
    }
    let mut k: usize = 0;
    while k < needle.len()
        invariant
            k <= needle.len(),
            i + needle.len() <= hay.len(),
            forall|j: int| 0 <= j < k ==> hay[i + j] == needle[j],
        decreases needle.len() - k,
    {
        if hay[i + k] != needle[k] {
            assert(hay@.subrange(i as int, i + needle.len())[k as int] != needle@[k as int]);
            return false;
        }
        k += 1;
    }
    assert(hay@.subrange(i as int, i + needle.len()) =~= needle@);
    true
}

/// The first position at or after `from` at which `needle` stands in `hay`.
pub fn find_from(hay: &Vec<char>, needle: &Vec<char>, from: usize) -> (r: Option<usize>)
    ensures
        match r {
            Some(i) => i == first_occurrence(hay@, needle@, from as int) && from <= i && i + needle.len()
                <= hay.len(),
            None => first_occurrence(hay@, needle@, from as int) == hay.len() + 1,
        },
{
    if needle.len() > hay.len() {
        return None;
    }
    let last = hay.len() - needle.len();
    let mut i: usize = from;
    while i <= last
        invariant
            from <= i,
            last == hay.len() - needle.len(),
            needle.len() <= hay.len(),
            first_occurrence(hay@, needle@, from as int) == first_occurrence(hay@, needle@, i as int),
        decreases last + 1 - i,
    {
        if matches_at(hay, needle, i) {
            return Some(i);
        }
        if i == last {
            assert(first_occurrence(hay@, needle@, i + 1) == hay.len() + 1);
            return None;
        }
        i += 1;
    }
    None
}

/// The bounds of `chars[from..to]` without the white space at its two ends.
pub fn trim_bounds(chars: &Vec<char>, from: usize, to: usize) -> (r: (usize, usize))
    requires
        from <= to <= chars.len(),
    ensures
        from <= r.0 <= r.1 <= to,
        chars@.subrange(r.0 as int, r.1 as int) == trimmed(chars@.subrange(from as int, to as int)),
{
    let ghost s = chars@.subrange(from as int, to as int);
    let mut a: usize = from;
    while a < to && is_whitespace(chars[a])
        invariant
            from <= a <= to <= chars.len(),
            s == chars@.subrange(from as int, to as int),
            skip_spaces(s, 0) == skip_spaces(s, a - from),
        decreases to - a,
    {
        assert(s[a - from] == chars@[a as int]);
        a += 1;
    }
    proof {
        if a < to {
            assert(s[a - from] == chars@[a as int]);
        }
        assert(skip_spaces(s, 0) == a - from);
    }
    let mut b: usize = to;
    while b > a && is_whitespace(chars[b - 1])
        invariant
            from <= a <= b <= to <= chars.len(),
            s == chars@.subrange(from as int, to as int),
            drop_spaces(s, a - from, s.len() as int) == drop_spaces(s, a - from, b - from),
        decreases b - a,
    {
        assert(s[b - 1 - from] == chars@[b - 1]);
        b -= 1;
    }
    proof {
        if b > a {
            assert(s[b - 1 - from] == chars@[b - 1]);
        }
        assert(drop_spaces(s, a - from, s.len() as int) == b - from);
        assert(chars@.subrange(a as int, b as int) =~= s.subrange(a - from, b - from));
    }
    (a, b)
}

/// The position of the first `sep` in `chars` at or after `from`, or `chars.len()`.
pub fn find_sep(chars: &Vec<char>, sep: char, from: usize) -> (r: usize)
    requires
        from <= chars.len(),
    ensures
        r == next_sep(chars@, sep, from as int),
        from <= r <= chars.len(),
{
    let mut i: usize = from;
    while i < chars.len() && chars[i] != sep
        invariant
            from <= i <= chars.len(),
            next_sep(chars@, sep, from as int) == next_sep(chars@, sep, i as int),
        decreases chars.len() - i,
    {
        i += 1;
    }
    i
}

} // verus!
