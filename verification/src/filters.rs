//! Text filters for templates.

use vstd::prelude::*;
use crate::scan::{matches_at, occurs_at};
use crate::text::{chars_of, lowercase_of, push_char, string_of, to_lowercase};

verus! {

/// The mark put behind a text that was cut.
pub open spec fn ellipsis() -> Seq<char> {
    seq!['.', '.', '.']
}

/// A text cut to its first `len` characters, with `...` behind them if anything was cut.
pub open spec fn truncated(s: Seq<char>, len: int) -> Seq<char> {
    if s.len() > len {
        s.subrange(0, len) + ellipsis()
    } else {
        s
    }
}

/// `s` with `to` between all its characters and at both its ends.
pub open spec fn interleaved(s: Seq<char>, to: Seq<char>) -> Seq<char>
    decreases s.len(),
{
    if s.len() == 0 {
        to
    } else {
        interleaved(s.drop_last(), to).push(s.last()) + to
    }
}

/// `s` from position `i` on, with every occurrence of the non-empty `from`
/// replaced by `to`, the occurrences taken from left to right without overlap.
pub open spec fn replaced_from(s: Seq<char>, from: Seq<char>, to: Seq<char>, i: int) -> Seq<char>
    decreases s.len() - i,
{
    if i < 0 || i >= s.len() || from.len() == 0 {
        Seq::<char>::empty()
    } else if occurs_at(s, from, i) {
        to + replaced_from(s, from, to, i + from.len())
    } else {
        seq![s[i]] + replaced_from(s, from, to, i + 1)
    }
}

/// `s` with every occurrence of `from` replaced by `to`.
///
/// The occurrences are taken from left to right and do not overlap. An empty
/// `from` occurs before every character and at the end.
pub open spec fn replaced(s: Seq<char>, from: Seq<char>, to: Seq<char>) -> Seq<char> {
    if from.len() == 0 {
        interleaved(s, to)
    } else {
        replaced_from(s, from, to, 0)
    }
}

/// Cuts a text to its first `len` characters and puts `...` behind them; a text of
/// at most `len` characters stays as it is.
pub fn truncate(s: &str, len: usize) -> (r: String)
    ensures
        r@ == truncated(s@, len as int),
{
    let chars = chars_of(s);
    if chars.len() > len {
        let mut r = string_of(&chars, 0, len);
        push_char(&mut r, '.');
        push_char(&mut r, '.');
        push_char(&mut r, '.');
        assert(r@ =~= s@.subrange(0, len as int) + ellipsis());
        r
    } else {
        s.to_owned()
    }
}

/// The text in lower case.
pub fn lower(s: &str) -> (r: String)
    ensures
        r@ == lowercase_of(s@),
{
    to_lowercase(s)
}

/// Replaces every occurrence of `from` in `s` by `to`.
pub fn replace(s: &str, from: &str, to: &str) -> (r: String)
    ensures
        r@ == replaced(s@, from@, to@),
{
    let text = chars_of(s);
    let pattern = chars_of(from);
    if pattern.len() == 0 {
        let mut r = to.to_owned();
        let mut i: usize = 0;
        assert(text@.take(0).len() == 0);
        while i < text.len()
            invariant
                i <= text.len(),
                r@ == interleaved(text@.take(i as int), to@),
            decreases text.len() - i,
        {
            proof {
                assert(text@.take(i + 1).drop_last() =~= text@.take(i as int));
                assert(text@.take(i + 1).last() == text@[i as int]);
            }
            push_char(&mut r, text[i]);
            r.append(to);
            i += 1;
        }
        assert(text@.take(text.len() as int) =~= text@);
        return r;
    }
    let mut r = String::new();
    let mut i: usize = 0;
    while i < text.len()
        invariant
            i <= text.len(),
            pattern.len() > 0,
            text@ == s@,
            pattern@ == from@,
            r@ + replaced_from(text@, pattern@, to@, i as int) =~= replaced_from(text@, pattern@, to@, 0),
        decreases text.len() - i,
    {
        if matches_at(&text, &pattern, i) {
            r.append(to);
            i += pattern.len();
        } else {
            push_char(&mut r, text[i]);
            i += 1;
        }
    }
    r
}

} // verus!
