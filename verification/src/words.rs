//! Counting words and estimating reading time.

use vstd::prelude::*;
use crate::text::chars_of;

verus! {

/// The number of words read per minute.
pub const WORDS_PER_MINUTE: u32 = 200;

/// Whether a character separates words: the characters with the Unicode property White_Space.
pub open spec fn is_space(c: char) -> bool {
    let n = c as u32;
    (0x09 <= n <= 0x0D) || n == 0x20 || n == 0x85 || n == 0xA0 || n == 0x1680 || (0x2000 <= n <= 0x200A)
        || n == 0x2028 || n == 0x2029 || n == 0x202F || n == 0x205F || n == 0x3000
}

/// Whether a word starts at position `i` of `s`.
pub open spec fn word_starts_at(s: Seq<char>, i: int) -> bool {
    !is_space(s[i]) && (i == 0 || is_space(s[i - 1]))
}

/// The number of words in `s`: maximal runs of characters that are not white space.
pub open spec fn word_count(s: Seq<char>) -> nat
    decreases s.len(),
{
    if s.len() == 0 {
        0
    } else {
        word_count(s.drop_last()) + if word_starts_at(s, s.len() - 1) {
            1nat
        } else {
            0nat
        }
    }
}

/// The sum of two counts, which stays at `u32::MAX` once it is reached.
pub open spec fn capped_sum(a: int, b: int) -> int {
    if a + b > u32::MAX {
        u32::MAX as int
    } else {
        a + b
    }
}

/// The estimated reading time of a text of `words` words, in minutes: one minute
/// for every full 200 words, and at least one.
pub open spec fn reading_minutes(words: int) -> int {
    if words / 200 < 1 {
        1
    } else {
        words / 200
    }
}

/// Whether a character separates words.
pub fn is_whitespace(c: char) -> (r: bool)
    ensures
        r == is_space(c),
{
    let n: u32 = c as u32;
    (0x09 <= n && n <= 0x0D) || n == 0x20 || n == 0x85 || n == 0xA0 || n == 0x1680 || (0x2000 <= n && n
        <= 0x200A) || n == 0x2028 || n == 0x2029 || n == 0x202F || n == 0x205F || n == 0x3000
}

/// The number of words in a text, words being separated by white space.
pub fn count_words(text: &str) -> (n: usize)
    ensures
        n == word_count(text@),
        n <= text@.len(),
{
    let chars = chars_of(text);
    let mut n: usize = 0;
    let mut in_word = false;
    let mut i: usize = 0;
    while i < chars.len()
        invariant
            i <= chars.len(),
            chars@ == text@,
            n == word_count(chars@.take(i as int)),
            n <= i,
            in_word == (i > 0 && !is_space(chars@[i - 1])),
        decreases chars.len() - i,
    {
        let space = is_whitespace(chars[i]);
        proof {
            let s = chars@.take(i + 1);
            assert(s.drop_last() =~= chars@.take(i as int));
            assert(s[i as int] == chars@[i as int]);
            if i > 0 {
                assert(s[i - 1] == chars@[i - 1]);
            }
        }
        if !space && !in_word {
            n += 1;
        }
        in_word = !space;
        i += 1;
    }
    assert(chars@.take(chars.len() as int) =~= chars@);
    n
}

/// Adds a count to a running total that stays at `u32::MAX` once it is reached.
pub fn add_words(total: u32, more: usize) -> (r: u32)
    ensures
        r == capped_sum(total as int, more as int),
{
    if more > (u32::MAX - total) as usize {
        u32::MAX
    } else {
        total + more as u32
    }
}

/// The estimated reading time in minutes: `word_count / 200`, and at least 1.
pub fn reading_time(word_count: u32) -> (minutes: u32)
    ensures
        minutes == reading_minutes(word_count as int),
        minutes >= 1,
        word_count >= 200 ==> minutes == word_count / 200,
{
    let m = word_count / WORDS_PER_MINUTE;
    if m < 1 {
        1
    } else {
        m
    }
}

} // verus!
