//! Anchors of headings: unique within one post.
//!
//! A heading whose base anchor is free gets it unchanged. Otherwise a counter is
//! appended, `base-1`, `base-2`, and so on, and the first anchor that is still
//! free is taken.

use vstd::prelude::*;
use vstd::set_lib::lemma_len_subset;
use crate::post::{toc_view, TocEntry, TocModel};
use crate::text::{push_char, str_eq};

verus! {

/// The character of a decimal digit.
pub open spec fn digit(d: int) -> char {
    if d == 0 {
        '0'
    } else if d == 1 {
        '1'
    } else if d == 2 {
        '2'
    } else if d == 3 {
        '3'
    } else if d == 4 {
        '4'
    } else if d == 5 {
        '5'
    } else if d == 6 {
        '6'
    } else if d == 7 {
        '7'
    } else if d == 8 {
        '8'
    } else {
        '9'
    }
}

/// The decimal numeral of a number, without leading zeros.
pub open spec fn decimal(n: nat) -> Seq<char>
    decreases n,
{
    if n < 10 {
        seq![digit(n as int)]
    } else {
        decimal(n / 10).push(digit((n % 10) as int))
    }
}

/// The anchor `base` with the counter `k` appended.
pub open spec fn suffixed(base: Seq<char>, k: nat) -> Seq<char> {
    base + seq!['-'] + decimal(k)
}

/// The first counter from `k` on whose anchor is not among `used`, searched up to `used.len() + 1`.
pub open spec fn first_free(base: Seq<char>, used: Seq<Seq<char>>, k: nat) -> nat
    decreases used.len() + 1 - k,
{
    if k > used.len() {
        k
    } else if !used.contains(suffixed(base, k)) {
        k
    } else {
        first_free(base, used, k + 1)
    }
}

/// The anchor given to a heading with the base anchor `base` when `used` are taken.
pub open spec fn anchor_for(base: Seq<char>, used: Seq<Seq<char>>) -> Seq<char> {
    if !used.contains(base) {
        base
    } else {
        suffixed(base, first_free(base, used, 1))
    }
}

/// The anchors of a table of contents.
pub open spec fn anchors(toc: Seq<TocModel>) -> Seq<Seq<char>> {
    toc.map_values(|e: TocModel| e.id)
}

/// Whether no text occurs twice in a list.
pub open spec fn distinct(ids: Seq<Seq<char>>) -> bool {
    forall|a: int, b: int| 0 <= a < b < ids.len() ==> #[trigger] ids[a] != #[trigger] ids[b]
}

/// Different numbers have different numerals.
pub proof fn lemma_decimal_injective(a: nat, b: nat)
    requires
        decimal(a) == decimal(b),
    ensures
        a == b,
    decreases a,
{
    if a < 10 && b < 10 {
        assert(decimal(a)[0] == digit(a as int) && decimal(b)[0] == digit(b as int));
    } else if a < 10 {
        assert(decimal(b).len() == decimal(b / 10).len() + 1);
        lemma_decimal_len(b / 10);
    } else if b < 10 {
        assert(decimal(a).len() == decimal(a / 10).len() + 1);
        lemma_decimal_len(a / 10);
    } else {
        let x = decimal(a / 10).push(digit((a % 10) as int));
        let y = decimal(b / 10).push(digit((b % 10) as int));
        assert(decimal(a) == x && decimal(b) == y);
        assert(x.last() == y.last());
        assert(a % 10 == b % 10);
        assert(x.drop_last() =~= decimal(a / 10));
        assert(y.drop_last() =~= decimal(b / 10));
        lemma_decimal_injective(a / 10, b / 10);
    }
}

proof fn lemma_decimal_len(n: nat)
    ensures
        decimal(n).len() >= 1,
    decreases n,
{
    if n >= 10 {
        lemma_decimal_len(n / 10);
    }
}

/// Different counters give different anchors, and none of them is the base itself.
pub proof fn lemma_suffixed_injective(base: Seq<char>, a: nat, b: nat)
    ensures
        suffixed(base, a) == suffixed(base, b) ==> a == b,
        suffixed(base, a) != base,
{
    lemma_decimal_len(a);
    if suffixed(base, a) == suffixed(base, b) {
        let n = base.len() + 1;
        assert(suffixed(base, a).subrange(n as int, suffixed(base, a).len() as int) =~= decimal(a));
        assert(suffixed(base, b).subrange(n as int, suffixed(base, b).len() as int) =~= decimal(b));
        lemma_decimal_injective(a, b);
    }
}

/// The anchors with the counters `1..=m`.
spec fn candidates(base: Seq<char>, m: nat) -> Set<Seq<char>>
    decreases m,
{
    if m == 0 {
        Set::empty()
    } else {
        candidates(base, (m - 1) as nat).insert(suffixed(base, m))
    }
}

proof fn lemma_candidates(base: Seq<char>, m: nat)
    ensures
        candidates(base, m).finite(),
        candidates(base, m).len() == m,
        forall|t: Seq<char>|
            candidates(base, m).contains(t) ==> exists|k: nat| 1 <= k <= m && t == #[trigger] suffixed(base, k),
        forall|k: nat| 1 <= k <= m ==> candidates(base, m).contains(#[trigger] suffixed(base, k)),
    decreases m,
{
    if m > 0 {
        lemma_candidates(base, (m - 1) as nat);
        let prev = candidates(base, (m - 1) as nat);
        if prev.contains(suffixed(base, m)) {
            let k = choose|k: nat| 1 <= k <= m - 1 && suffixed(base, m) == #[trigger] suffixed(base, k);
            lemma_suffixed_injective(base, m, k);
        }
        assert forall|t: Seq<char>| candidates(base, m).contains(t) implies exists|k: nat|
            1 <= k <= m && t == #[trigger] suffixed(base, k) by {
            if prev.contains(t) {
                let k = choose|k: nat| 1 <= k <= m - 1 && t == #[trigger] suffixed(base, k);
                assert(1 <= k <= m && t == suffixed(base, k));
            } else {
                assert(t == suffixed(base, m));
            }
        }
    }
}

/// Among the counters `1..=used.len() + 1` one gives an anchor that is not taken.
proof fn lemma_some_counter_free(base: Seq<char>, used: Seq<Seq<char>>)
    ensures
        exists|k: nat| 1 <= k <= used.len() + 1 && !used.contains(#[trigger] suffixed(base, k)),
{
    let m = used.len() + 1;
    if forall|k: nat| 1 <= k <= m ==> used.contains(#[trigger] suffixed(base, k)) {
        lemma_candidates(base, m);
        let all = candidates(base, m);
        assert forall|t: Seq<char>| all.contains(t) implies used.to_set().contains(t) by {
            let k = choose|k: nat| 1 <= k <= m && t == #[trigger] suffixed(base, k);
            assert(used.contains(suffixed(base, k)));
        }
        assert(all.subset_of(used.to_set()));
        vstd::seq_lib::seq_to_set_is_finite(used);
        lemma_len_subset(all, used.to_set());
        used.lemma_cardinality_of_set();
        assert(false);
    }
}

proof fn lemma_first_free(base: Seq<char>, used: Seq<Seq<char>>, k: nat)
    requires
        1 <= k <= used.len() + 1,
        exists|f: nat| k <= f <= used.len() + 1 && !used.contains(#[trigger] suffixed(base, f)),
    ensures
        k <= first_free(base, used, k) <= used.len() + 1,
        !used.contains(suffixed(base, first_free(base, used, k))),
        forall|j: nat| k <= j < first_free(base, used, k) ==> used.contains(#[trigger] suffixed(base, j)),
    decreases used.len() + 1 - k,
{
    let f = choose|f: nat| k <= f <= used.len() + 1 && !used.contains(#[trigger] suffixed(base, f));
    if k > used.len() {
        assert(f == k);
    } else if !used.contains(suffixed(base, k)) {
    } else {
        assert(f != k);
        assert(k + 1 <= f <= used.len() + 1 && !used.contains(suffixed(base, f)));
        lemma_first_free(base, used, k + 1);
    }
}

/// The anchor given to a heading is not among those already taken.
pub proof fn lemma_anchor_fresh(base: Seq<char>, used: Seq<Seq<char>>)
    ensures
        !used.contains(anchor_for(base, used)),
{
    if used.contains(base) {
        lemma_some_counter_free(base, used);
        lemma_first_free(base, used, 1);
    }
}

/// After `m` headings with the same base anchor and no others, the next heading
/// with that base gets the counter `m`: the anchors are `base`, `base-1`, `base-2`, …
pub proof fn lemma_duplicate_headings(base: Seq<char>, used: Seq<Seq<char>>)
    requires
        used.len() >= 1,
        used[0] == base,
        forall|j: int| 1 <= j < used.len() ==> #[trigger] used[j] == suffixed(base, j as nat),
    ensures
        anchor_for(base, used) == suffixed(base, used.len()),
{
    let m = used.len();
    assert(used.contains(base));
    assert forall|k: nat| 1 <= k < m implies used.contains(#[trigger] suffixed(base, k)) by {
        assert(used[k as int] == suffixed(base, k));
    }
    assert(!used.contains(suffixed(base, m))) by {
        if used.contains(suffixed(base, m)) {
            let w = choose|w: int| 0 <= w < used.len() && used[w] == suffixed(base, m);
            lemma_suffixed_injective(base, m, w as nat);
        }
    }
    lemma_first_free(base, used, 1);
    let f = first_free(base, used, 1);
    if f < m {
        assert(used.contains(suffixed(base, f)));
    }
    if f > m {
        assert(used.contains(suffixed(base, m)));
    }
}

/// The numeral of `n`.
pub fn decimal_string(n: u64) -> (s: String)
    ensures
        s@ == decimal(n as nat),
    decreases n,
{
    let d = n % 10;
    let c = if d == 0 {
        '0'
    } else if d == 1 {
        '1'
    } else if d == 2 {
        '2'
    } else if d == 3 {
        '3'
    } else if d == 4 {
        '4'
    } else if d == 5 {
        '5'
    } else if d == 6 {
        '6'
    } else if d == 7 {
        '7'
    } else if d == 8 {
        '8'
    } else {
        '9'
    };
    if n < 10 {
        let mut s = String::new();
        push_char(&mut s, c);
        assert(s@ =~= seq![c]);
        s
    } else {
        let mut s = decimal_string(n / 10);
        push_char(&mut s, c);
        s
    }
}

/// Whether an entry of the table of contents has the anchor `id`.
pub fn anchor_taken(toc: &Vec<TocEntry>, id: &str) -> (r: bool)
    ensures
        r == anchors(toc_view(toc@)).contains(id@),
{
    let ghost ids = anchors(toc_view(toc@));
    let mut i: usize = 0;
    while i < toc.len()
        invariant
            i <= toc.len(),
            ids == anchors(toc_view(toc@)),
            forall|j: int| 0 <= j < i ==> ids[j] != id@,
        decreases toc.len() - i,
    {
        assert(ids[i as int] == toc[i as int].id@);
        if str_eq(toc[i].id.as_str(), id) {
            return true;
        }
        i += 1;
    }
    false
}

/// The anchor for a heading with the base anchor `base`, given the headings so far:
/// `base` itself if no heading has it, else `base-k` for the least `k >= 1` that no
/// heading has. The result is the anchor of no heading so far.
pub fn unique_anchor(base: &str, toc: &Vec<TocEntry>) -> (id: String)
    requires
        toc.len() < usize::MAX,
    ensures
        id@ == anchor_for(base@, anchors(toc_view(toc@))),
        !anchors(toc_view(toc@)).contains(id@),
{
    let ghost used = anchors(toc_view(toc@));
    proof {
        lemma_anchor_fresh(base@, used);
    }
    if !anchor_taken(toc, base) {
        return base.to_owned();
    }
    let mut k: usize = 1;
    loop
        invariant
            1 <= k <= toc.len() + 1,
            toc.len() < usize::MAX,
            used == anchors(toc_view(toc@)),
            used.len() == toc.len(),
            used.contains(base@),
            !used.contains(anchor_for(base@, used)),
            first_free(base@, used, 1) == first_free(base@, used, k as nat),
        decreases toc.len() + 1 - k,
    {
        let mut candidate = base.to_owned();
        push_char(&mut candidate, '-');
        let number = decimal_string(k as u64);
        candidate.append(number.as_str());
        assert(candidate@ =~= suffixed(base@, k as nat));
        if k > toc.len() || !anchor_taken(toc, candidate.as_str()) {
            return candidate;
        }
        k += 1;
    }
}

} // verus!
