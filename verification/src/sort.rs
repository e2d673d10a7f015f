//! Stable ordering of the positions of a list.
//!
//! Every sorted listing of the crate is produced by ordering the positions of a
//! list, mostly by one integer key per element. The order is the one a stable
//! sort gives: ascending, equal elements in the order they have in the list.

use vstd::prelude::*;

verus! {

/// `order` with the position `i` put behind the last position that may stand before it.
///
/// `le(a, b)` says that the element at `a` is not greater than the element at `b`.
pub open spec fn insert_by(le: spec_fn(int, int) -> bool, order: Seq<int>, i: int) -> Seq<int>
    decreases order.len(),
{
    if order.len() == 0 {
        seq![i]
    } else if le(order.last(), i) {
        order.push(i)
    } else {
        insert_by(le, order.drop_last(), i).push(order.last())
    }
}

/// The positions `0..n` in stable ascending order.
pub open spec fn stable_order_by(le: spec_fn(int, int) -> bool, n: nat) -> Seq<int>
    decreases n,
{
    if n == 0 {
        Seq::<int>::empty()
    } else {
        insert_by(le, stable_order_by(le, (n - 1) as nat), n - 1)
    }
}

/// Whether `le` compares any two of the positions `0..n`, and is transitive on them.
pub open spec fn is_total_preorder(le: spec_fn(int, int) -> bool, n: int) -> bool {
    &&& forall|a: int, b: int| 0 <= a < n && 0 <= b < n ==> #[trigger] le(a, b) || le(b, a)
    &&& forall|a: int, b: int, c: int|
        0 <= a < n && 0 <= b < n && 0 <= c < n && #[trigger] le(a, b) && #[trigger] le(b, c) ==> le(a, c)
}

/// Whether `order` lists positions in ascending order, equal elements by ascending position.
pub open spec fn ordered_by(le: spec_fn(int, int) -> bool, order: Seq<int>) -> bool {
    forall|x: int, y: int|
        0 <= x < y < order.len() ==> le(#[trigger] order[x], #[trigger] order[y]) && (le(order[y], order[x])
            ==> order[x] < order[y])
}

/// Whether `order` holds each of the positions `0..n` exactly once.
pub open spec fn is_arrangement(order: Seq<int>, n: nat) -> bool {
    &&& order.len() == n
    &&& forall|k: int| 0 <= k < order.len() ==> 0 <= #[trigger] order[k] < n
    &&& forall|a: int, b: int| 0 <= a < b < order.len() ==> #[trigger] order[a] != #[trigger] order[b]
    &&& forall|i: int| 0 <= i < n ==> order.contains(i)
}

/// The keys held by a list of machine integers.
pub open spec fn keys_of(keys: Seq<i128>) -> Seq<int> {
    keys.map_values(|k: i128| k as int)
}

/// The comparison of positions by their keys.
pub open spec fn key_le(keys: Seq<int>) -> spec_fn(int, int) -> bool {
    |a: int, b: int| keys[a] <= keys[b]
}

/// The positions `0..n` in stable ascending order of their keys.
pub open spec fn stable_order(keys: Seq<int>, n: nat) -> Seq<int> {
    stable_order_by(key_le(keys), n)
}

/// Whether `order` lists positions by ascending key, equal keys by ascending position.
pub open spec fn ordered(keys: Seq<int>, order: Seq<int>) -> bool {
    forall|a: int, b: int|
        0 <= a < b < order.len() ==> keys[#[trigger] order[a]] < keys[#[trigger] order[b]] || (keys[order[a]]
            == keys[order[b]] && order[a] < order[b])
}

/// Inserting at the place found by scanning from the end is `insert_by`.
pub proof fn lemma_insert_at(le: spec_fn(int, int) -> bool, order: Seq<int>, i: int, p: int)
    requires
        0 <= p <= order.len(),
        forall|j: int| p <= j < order.len() ==> !le(#[trigger] order[j], i),
        p > 0 ==> le(order[p - 1], i),
    ensures
        insert_by(le, order, i) == order.insert(p, i),
    decreases order.len(),
{
    if order.len() == 0 {
        assert(order.insert(p, i) =~= seq![i]);
    } else if p == order.len() {
        assert(order.insert(p, i) =~= order.push(i));
    } else {
        assert(!le(order[order.len() - 1], i));
        let front = order.drop_last();
        assert forall|j: int| p <= j < front.len() implies !le(#[trigger] front[j], i) by {
            assert(front[j] == order[j]);
        }
        lemma_insert_at(le, front, i, p);
        assert(front.insert(p, i).push(order.last()) =~= order.insert(p, i));
    }
}

/// Inserting a new position keeps an ordered list ordered and free of repetition,
/// and adds exactly that position.
proof fn lemma_insert_keeps(le: spec_fn(int, int) -> bool, order: Seq<int>, i: int, n: int)
    requires
        is_total_preorder(le, n),
        ordered_by(le, order),
        0 <= i < n,
        forall|k: int| 0 <= k < order.len() ==> 0 <= #[trigger] order[k] < i,
        forall|a: int, b: int| 0 <= a < b < order.len() ==> #[trigger] order[a] != #[trigger] order[b],
    ensures
        ordered_by(le, insert_by(le, order, i)),
        insert_by(le, order, i).len() == order.len() + 1,
        forall|k: int|
            0 <= k < order.len() + 1 ==> (#[trigger] insert_by(le, order, i)[k] == i || order.contains(
                insert_by(le, order, i)[k],
            )),
        insert_by(le, order, i).contains(i),
        forall|k: int| 0 <= k < order.len() ==> insert_by(le, order, i).contains(#[trigger] order[k]),
        forall|a: int, b: int|
            0 <= a < b < order.len() + 1 ==> #[trigger] insert_by(le, order, i)[a] != #[trigger] insert_by(
                le,
                order,
                i,
            )[b],
    decreases order.len(),
{
    let out = insert_by(le, order, i);
    if order.len() == 0 {
        assert(out[0] == i);
    } else if le(order.last(), i) {
        assert(out =~= order.push(i));
        assert(out[order.len() as int] == i);
        assert forall|k: int| 0 <= k < order.len() implies out.contains(#[trigger] order[k]) by {
            assert(out[k] == order[k]);
        }
        assert forall|k: int| 0 <= k < order.len() + 1 implies (#[trigger] out[k] == i || order.contains(
            out[k],
        )) by {
            if k < order.len() {
                assert(order[k] == out[k]);
            }
        }
        assert forall|x: int, y: int| 0 <= x < y < out.len() implies le(#[trigger] out[x], #[trigger] out[y])
            && (le(out[y], out[x]) ==> out[x] < out[y]) by {
            if y < order.len() {
                assert(out[x] == order[x] && out[y] == order[y]);
            } else {
                assert(out[x] == order[x]);
                let l = order.len() - 1;
                assert(0 <= order[x] < i && 0 <= order[l] < i);
                if x < l {
                    assert(le(order[x], order[l]));
                    assert(le(order[l], i));
                }
            }
        }
    } else {
        let front = order.drop_last();
        let last = order.last();
        assert(0 <= last < i);
        assert(le(i, last));
        assert forall|x: int, y: int| 0 <= x < y < front.len() implies le(#[trigger] front[x], #[trigger] front[y])
            && (le(front[y], front[x]) ==> front[x] < front[y]) by {
            assert(front[x] == order[x] && front[y] == order[y]);
        }
        assert forall|k: int| 0 <= k < front.len() implies 0 <= #[trigger] front[k] < i by {
            assert(front[k] == order[k]);
        }
        assert forall|a: int, b: int| 0 <= a < b < front.len() implies #[trigger] front[a] != #[trigger] front[b] by {
            assert(front[a] == order[a] && front[b] == order[b]);
        }
        lemma_insert_keeps(le, front, i, n);
        let mid = insert_by(le, front, i);
        assert(out =~= mid.push(last));
        assert forall|k: int| 0 <= k < order.len() + 1 implies (#[trigger] out[k] == i || order.contains(
            out[k],
        )) by {
            if k < mid.len() {
                assert(out[k] == mid[k]);
                if mid[k] != i {
                    assert(front.contains(mid[k]));
                    let w = choose|w: int| 0 <= w < front.len() && front[w] == mid[k];
                    assert(order[w] == mid[k]);
                }
            } else {
                assert(out[k] == order[order.len() - 1]);
            }
        }
        assert(out.contains(i)) by {
            let w = choose|w: int| 0 <= w < mid.len() && mid[w] == i;
            assert(out[w] == i);
        }
        assert forall|k: int| 0 <= k < order.len() implies out.contains(#[trigger] order[k]) by {
            if k < front.len() {
                assert(front[k] == order[k]);
                assert(mid.contains(front[k]));
                let w = choose|w: int| 0 <= w < mid.len() && mid[w] == front[k];
                assert(out[w] == order[k]);
            } else {
                assert(out[mid.len() as int] == order[k]);
            }
        }
        assert forall|a: int, b: int| 0 <= a < b < out.len() implies #[trigger] out[a] != #[trigger] out[b] by {
            if b < mid.len() {
                assert(out[a] == mid[a] && out[b] == mid[b]);
            } else {
                assert(out[a] == mid[a]);
                if mid[a] != i {
                    let w = choose|w: int| 0 <= w < front.len() && front[w] == mid[a];
                    assert(order[w] == mid[a]);
                    assert(order[w] != order[order.len() - 1]);
                }
            }
        }
        assert forall|x: int, y: int| 0 <= x < y < out.len() implies le(#[trigger] out[x], #[trigger] out[y])
            && (le(out[y], out[x]) ==> out[x] < out[y]) by {
            if y < mid.len() {
                assert(out[x] == mid[x] && out[y] == mid[y]);
            } else {
                assert(out[y] == last);
                assert(out[x] == mid[x]);
                if mid[x] != i {
                    assert(front.contains(mid[x]));
                    let w = choose|w: int| 0 <= w < front.len() && front[w] == mid[x];
                    assert(order[w] == mid[x]);
                    let l = order.len() - 1;
                    assert(le(order[w], order[l]) && (le(order[l], order[w]) ==> order[w] < order[l]));
                }
            }
        }
    }
}

/// The stable order is ascending, keeps equal elements in the order they have in the list, and
/// holds every position `0..n` exactly once.
pub proof fn lemma_stable_order_by(le: spec_fn(int, int) -> bool, n: nat)
    requires
        is_total_preorder(le, n as int),
    ensures
        ordered_by(le, stable_order_by(le, n)),
        is_arrangement(stable_order_by(le, n), n),
    decreases n,
{
    if n > 0 {
        let prev = stable_order_by(le, (n - 1) as nat);
        assert(is_total_preorder(le, n - 1));
        lemma_stable_order_by(le, (n - 1) as nat);
        lemma_insert_keeps(le, prev, n - 1, n as int);
        let out = stable_order_by(le, n);
        assert forall|k: int| 0 <= k < out.len() implies 0 <= #[trigger] out[k] < n by {
            if out[k] != n - 1 {
                assert(prev.contains(out[k]));
            }
        }
        assert forall|i: int| 0 <= i < n implies out.contains(i) by {
            if i < n - 1 {
                assert(prev.contains(i));
                let w = choose|w: int| 0 <= w < prev.len() && prev[w] == i;
                assert(out.contains(prev[w]));
            }
        }
    }
}

/// The stable order by keys is sorted by key, keeps equal keys in the order of the
/// list, and holds every position `0..n` exactly once.
pub proof fn lemma_stable_order(keys: Seq<int>, n: nat)
    ensures
        ordered(keys, stable_order(keys, n)),
        is_arrangement(stable_order(keys, n), n),
{
    let le = key_le(keys);
    assert(is_total_preorder(le, n as int));
    lemma_stable_order_by(le, n);
    let order = stable_order(keys, n);
    assert forall|a: int, b: int| 0 <= a < b < order.len() implies keys[#[trigger] order[a]] < keys[#[trigger] order[b]]
        || (keys[order[a]] == keys[order[b]] && order[a] < order[b]) by {
        assert(le(order[a], order[b]) && (le(order[b], order[a]) ==> order[a] < order[b]));
    }
}

/// The positions of `keys` in stable ascending order of the keys.
pub fn sort_positions(keys: &Vec<i128>) -> (order: Vec<usize>)
    ensures
        order@.map_values(|i: usize| i as int) == stable_order(keys_of(keys@), keys@.len()),
        order.len() == keys.len(),
        forall|k: int| 0 <= k < order.len() ==> 0 <= #[trigger] order[k] < keys.len(),
{
    let ghost ks = keys_of(keys@);
    let ghost le = key_le(ks);
    let mut order: Vec<usize> = Vec::new();
    let mut i: usize = 0;
    while i < keys.len()
        invariant
            i <= keys.len(),
            ks == keys_of(keys@),
            le == key_le(ks),
            order@.map_values(|j: usize| j as int) == stable_order_by(le, i as nat),
            order.len() == i,
            forall|k: int| 0 <= k < order.len() ==> 0 <= #[trigger] order[k] < i,
        decreases keys.len() - i,
    {
        let ghost before = order@.map_values(|j: usize| j as int);
        let mut p: usize = order.len();
        while p > 0 && keys[order[p - 1]] > keys[i]
            invariant
                p <= order.len(),
                order.len() == i,
                i < keys.len(),
                ks == keys_of(keys@),
                le == key_le(ks),
                before == order@.map_values(|j: usize| j as int),
                forall|k: int| 0 <= k < order.len() ==> 0 <= #[trigger] order[k] < i,
                forall|j: int| p <= j < order.len() ==> !le(#[trigger] before[j], i as int),
            decreases p,
        {
            assert(before[p - 1] == order[p - 1] as int);
            p -= 1;
        }
        proof {
            if p > 0 {
                assert(before[p - 1] == order[p - 1] as int);
            }
            lemma_insert_at(le, before, i as int, p as int);
        }
        order.insert(p, i);
        assert(order@.map_values(|j: usize| j as int) =~= before.insert(p as int, i as int));
        i += 1;
    }
    order
}

} // verus!
