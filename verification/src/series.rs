//! Series: ordered groups of posts and their navigation chains.
//!
//! A chain is the set of posts of one series in one language. Within a chain,
//! posts with an explicit order come first, by ascending order; the posts
//! without one follow, by creation time. Posts that compare equal keep the
//! order they have in the catalog.

use vstd::prelude::*;
use crate::dedup::{dedup, dedup_refs_by_translation};
use crate::lang::Lang;
use crate::post::{catalog, pick_refs, refs, select, to_owned, MetadataModel, Post, PostModel};
use crate::sort::{keys_of, sort_positions, stable_order};
use crate::text::{
    clone_opt, compare_text, lemma_text_lt_transitive, opt_text, str_eq, text_lt, texts, TextOrder,
};

verus! {


/// The key of the first post without an explicit order: above every explicit order.
pub open spec fn unordered_base() -> int {
    0x1_0000_0000_0000_0000_0000_0000
}

/// The key by which the posts of a chain are ordered.
///
/// An explicit order is its own key. A post without one has the key
/// `unordered_base()` plus the key of its creation time, which is above every
/// explicit order.
pub open spec fn series_key(p: PostModel) -> int {
    match p.metadata.series_order {
        Some(order) => order as int,
        None => unordered_base() + p.metadata.created_at.key(),
    }
}

/// Whether the post at `j` belongs to the chain of the post at `i`.
pub open spec fn same_chain(posts: Seq<PostModel>, i: int, j: int) -> bool {
    &&& posts[i].metadata.series is Some
    &&& posts[j].metadata.series == posts[i].metadata.series
    &&& posts[j].lang == posts[i].lang
}

/// Whether the post at `j` stands before the post at `i` in chain order.
pub open spec fn comes_before(posts: Seq<PostModel>, j: int, i: int) -> bool {
    series_key(posts[j]) < series_key(posts[i]) || (series_key(posts[j]) == series_key(posts[i]) && j < i)
}

/// Whether the post at `j` is the member of the chain of `i` that stands directly before `i`.
pub open spec fn is_predecessor(posts: Seq<PostModel>, j: int, i: int) -> bool {
    &&& 0 <= j < posts.len()
    &&& same_chain(posts, i, j)
    &&& comes_before(posts, j, i)
    &&& forall|k: int|
        0 <= k < posts.len() && same_chain(posts, i, k) && #[trigger] comes_before(posts, k, i) ==> k == j
            || comes_before(posts, k, j)
}

/// Whether the post at `j` is the member of the chain of `i` that stands directly behind `i`.
pub open spec fn is_successor(posts: Seq<PostModel>, j: int, i: int) -> bool {
    &&& 0 <= j < posts.len()
    &&& same_chain(posts, i, j)
    &&& comes_before(posts, i, j)
    &&& forall|k: int|
        0 <= k < posts.len() && same_chain(posts, i, k) && #[trigger] comes_before(posts, i, k) ==> k == j
            || comes_before(posts, j, k)
}

/// The slug of the post directly before the post at `i` in its chain, if there is one.
pub open spec fn computed_prev(posts: Seq<PostModel>, i: int) -> Option<Seq<char>> {
    if exists|j: int| is_predecessor(posts, j, i) {
        Some(posts[choose|j: int| is_predecessor(posts, j, i)].slug)
    } else {
        None
    }
}

/// The slug of the post directly behind the post at `i` in its chain, if there is one.
pub open spec fn computed_next(posts: Seq<PostModel>, i: int) -> Option<Seq<char>> {
    if exists|j: int| is_successor(posts, j, i) {
        Some(posts[choose|j: int| is_successor(posts, j, i)].slug)
    } else {
        None
    }
}

/// The link that the post at `i` ends with: the author's, or else the computed one.
pub open spec fn final_link(explicit: Option<Seq<char>>, computed: Option<Seq<char>>) -> Option<Seq<char>> {
    if explicit is Some {
        explicit
    } else {
        computed
    }
}

/// The post at `i` with its navigation links filled in.
pub open spec fn linked(posts: Seq<PostModel>, i: int) -> PostModel {
    let p = posts[i];
    PostModel {
        metadata: MetadataModel {
            prev_post: final_link(p.metadata.prev_post, computed_prev(posts, i)),
            next_post: final_link(p.metadata.next_post, computed_next(posts, i)),
            ..p.metadata
        },
        ..p
    }
}

/// The catalog with the navigation links of every post filled in.
pub open spec fn linked_catalog(posts: Seq<PostModel>) -> Seq<PostModel> {
    Seq::new(posts.len(), |i: int| linked(posts, i))
}

/// The ordering key of a post within its chain.
pub fn series_sort_key(p: &Post) -> (k: i128)
    ensures
        k == series_key(p@),
{
    match p.metadata.series_order {
        Some(order) => order as i128,
        None => 0x1_0000_0000_0000_0000_0000_0000i128 + p.metadata.created_at.sort_key(),
    }
}

/// Whether the post at `j` belongs to the chain of the post at `i`.
pub fn in_same_chain(posts: &[Post], i: usize, j: usize) -> (r: bool)
    requires
        i < posts.len(),
        j < posts.len(),
    ensures
        r == same_chain(catalog(posts@), i as int, j as int),
{
    match (&posts[i].metadata.series, &posts[j].metadata.series) {
        (Some(a), Some(b)) => str_eq(a.as_str(), b.as_str()) && posts[i].lang.same(posts[j].lang),
        _ => false,
    }
}

/// The position of the post directly before the post at `i` in its chain.
pub fn predecessor(posts: &[Post], i: usize) -> (r: Option<usize>)
    requires
        i < posts.len(),
    ensures
        r matches Some(j) ==> is_predecessor(catalog(posts@), j as int, i as int),
        r is None ==> forall|j: int| !is_predecessor(catalog(posts@), j, i as int),
{
    let ghost model = catalog(posts@);
    let key = series_sort_key(&posts[i]);
    let mut best: Option<(usize, i128)> = None;
    let mut k: usize = 0;
    while k < posts.len()
        invariant
            k <= posts.len(),
            i < posts.len(),
            model == catalog(posts@),
            key == series_key(model[i as int]),
            best matches Some((b, bk)) ==> b < k && bk == series_key(model[b as int]) && same_chain(
                model,
                i as int,
                b as int,
            ) && comes_before(model, b as int, i as int),
            forall|c: int|
                0 <= c < k && same_chain(model, i as int, c) && #[trigger] comes_before(model, c, i as int)
                    ==> (best matches Some((b, bk)) && (c == b || comes_before(model, c, b as int))),
        decreases posts.len() - k,
    {
        if in_same_chain(posts, i, k) {
            let kk = series_sort_key(&posts[k]);
            if kk < key || (kk == key && k < i) {
                let better = match best {
                    Some((b, bk)) => bk < kk || (bk == kk && b < k),
                    None => true,
                };
                if better {
                    best = Some((k, kk));
                }
            }
        }
        k += 1;
    }
    match best {
        Some((b, _)) => Some(b),
        None => None,
    }
}

/// The position of the post directly behind the post at `i` in its chain.
pub fn successor(posts: &[Post], i: usize) -> (r: Option<usize>)
    requires
        i < posts.len(),
    ensures
        r matches Some(j) ==> is_successor(catalog(posts@), j as int, i as int),
        r is None ==> forall|j: int| !is_successor(catalog(posts@), j, i as int),
{
    let ghost model = catalog(posts@);
    let key = series_sort_key(&posts[i]);
    let mut best: Option<(usize, i128)> = None;
    let mut k: usize = 0;
    while k < posts.len()
        invariant
            k <= posts.len(),
            i < posts.len(),
            model == catalog(posts@),
            key == series_key(model[i as int]),
            best matches Some((b, bk)) ==> b < k && bk == series_key(model[b as int]) && same_chain(
                model,
                i as int,
                b as int,
            ) && comes_before(model, i as int, b as int),
            forall|c: int|
                0 <= c < k && same_chain(model, i as int, c) && #[trigger] comes_before(model, i as int, c)
                    ==> (best matches Some((b, bk)) && (c == b || comes_before(model, b as int, c))),
        decreases posts.len() - k,
    {
        if in_same_chain(posts, i, k) {
            let kk = series_sort_key(&posts[k]);
            if key < kk || (kk == key && i < k) {
                let better = match best {
                    Some((b, bk)) => kk < bk,
                    None => true,
                };
                if better {
                    best = Some((k, kk));
                }
            }
        }
        k += 1;
    }
    match best {
        Some((b, _)) => Some(b),
        None => None,
    }
}

/// At most one post stands directly before another in its chain, and at most one directly behind.
pub proof fn lemma_neighbours_unique(posts: Seq<PostModel>, i: int, a: int, b: int)
    ensures
        is_predecessor(posts, a, i) && is_predecessor(posts, b, i) ==> a == b,
        is_successor(posts, a, i) && is_successor(posts, b, i) ==> a == b,
{
    if is_predecessor(posts, a, i) && is_predecessor(posts, b, i) {
        assert(comes_before(posts, a, i) && comes_before(posts, b, i));
    }
    if is_successor(posts, a, i) && is_successor(posts, b, i) {
        assert(comes_before(posts, i, a) && comes_before(posts, i, b));
    }
}

/// The slug that the computed link to a neighbour holds.
fn neighbour_slug(posts: &[Post], at: Option<usize>) -> (r: Option<String>)
    requires
        at matches Some(j) ==> j < posts.len(),
    ensures
        opt_text(r) == (match at {
            Some(j) => Some(posts[j as int].slug@),
            None => None,
        }),
{
    match at {
        Some(j) => Some(posts[j].slug.clone()),
        None => None,
    }
}

/// Fills in the previous and next links of every post that belongs to a series.
///
/// A link that the author wrote is kept. An empty link becomes the slug of the
/// neighbour in the post's chain, and stays empty at the end of the chain.
pub fn link_series(posts: &mut Vec<Post>)
    ensures
        catalog(final(posts)@) == linked_catalog(catalog(old(posts)@)),
{
    let ghost before = catalog(posts@);
    let n = posts.len();
    let mut links: Vec<(Option<String>, Option<String>)> = Vec::new();
    let mut i: usize = 0;
    while i < n
        invariant
            i <= n,
            n == posts.len(),
            before == catalog(posts@),
            links.len() == i,
            forall|k: int|
                0 <= k < i ==> opt_text((#[trigger] links[k]).0) == computed_prev(before, k) && opt_text(links[k].1)
                    == computed_next(before, k),
        decreases n - i,
    {
        let p = predecessor(posts.as_slice(), i);
        let s = successor(posts.as_slice(), i);
        proof {
            if let Some(j) = p {
                let c = choose|c: int| is_predecessor(before, c, i as int);
                lemma_neighbours_unique(before, i as int, j as int, c);
            }
            if let Some(j) = s {
                let c = choose|c: int| is_successor(before, c, i as int);
                lemma_neighbours_unique(before, i as int, j as int, c);
            }
        }
        let prev = neighbour_slug(posts.as_slice(), p);
        let next = neighbour_slug(posts.as_slice(), s);
        links.push((prev, next));
        i += 1;
    }
    let mut i: usize = 0;
    while i < n
        invariant
            i <= n,
            n == posts.len(),
            before.len() == n,
            links.len() == n,
            forall|k: int|
                0 <= k < n ==> opt_text((#[trigger] links[k]).0) == computed_prev(before, k) && opt_text(links[k].1)
                    == computed_next(before, k),
            forall|k: int| 0 <= k < i ==> (#[trigger] posts[k])@ == linked(before, k),
            forall|k: int| i <= k < n ==> (#[trigger] posts[k])@ == before[k],
        decreases n - i,
    {
        let mut p = posts[i].clone();
        if p.metadata.prev_post.is_none() {
            p.metadata.prev_post = clone_opt(&links[i].0);
        }
        if p.metadata.next_post.is_none() {
            p.metadata.next_post = clone_opt(&links[i].1);
        }
        assert(p@ == linked(before, i as int));
        posts.set(i, p);
        i += 1;
    }
    assert(catalog(posts@) =~= linked_catalog(before));
}

/// A post whose links are empty ends up linked to its neighbours in the chain, and
/// a link that the author wrote stays as it is.
pub proof fn lemma_linked_to_neighbours(posts: Seq<PostModel>, i: int, a: int, b: int)
    requires
        0 <= i < posts.len(),
    ensures
        linked(posts, i).metadata.prev_post == posts[i].metadata.prev_post || posts[i].metadata.prev_post is None,
        linked(posts, i).metadata.next_post == posts[i].metadata.next_post || posts[i].metadata.next_post is None,
        is_predecessor(posts, a, i) && posts[i].metadata.prev_post is None ==> linked(posts, i).metadata.prev_post
            == Some(posts[a].slug),
        is_successor(posts, b, i) && posts[i].metadata.next_post is None ==> linked(posts, i).metadata.next_post
            == Some(posts[b].slug),
{
    if is_predecessor(posts, a, i) {
        let c = choose|c: int| is_predecessor(posts, c, i);
        lemma_neighbours_unique(posts, i, a, c);
    }
    if is_successor(posts, b, i) {
        let c = choose|c: int| is_successor(posts, c, i);
        lemma_neighbours_unique(posts, i, b, c);
    }
}

/// Whether `walk` lists the chain of the post at `walk[0]` in chain order: it holds
/// the positions of all posts of the chain, each before those that come after it.
pub open spec fn walks_chain(posts: Seq<PostModel>, walk: Seq<int>) -> bool {
    &&& walk.len() > 0
    &&& forall|k: int| 0 <= k < walk.len() ==> 0 <= #[trigger] walk[k] < posts.len() && same_chain(posts, walk[0], walk[k])
    &&& forall|c: int| 0 <= c < posts.len() && same_chain(posts, walk[0], c) ==> walk.contains(c)
    &&& forall|x: int, y: int| 0 <= x < y < walk.len() ==> comes_before(posts, #[trigger] walk[x], #[trigger] walk[y])
}

/// In a walk of a chain in chain order, each post stands directly behind the one
/// listed before it and directly before the one listed behind it; nothing stands
/// before the first or behind the last.
pub proof fn lemma_walk_of_chain(posts: Seq<PostModel>, walk: Seq<int>, k: int)
    requires
        walks_chain(posts, walk),
        0 <= k < walk.len(),
    ensures
        k > 0 ==> is_predecessor(posts, walk[k - 1], walk[k]),
        k + 1 < walk.len() ==> is_successor(posts, walk[k + 1], walk[k]),
        k == 0 ==> forall|j: int| !is_predecessor(posts, j, walk[k]),
        k + 1 == walk.len() ==> forall|j: int| !is_successor(posts, j, walk[k]),
{
    let i = walk[k];
    assert(same_chain(posts, walk[0], i));
    assert forall|c: int| 0 <= c < posts.len() && same_chain(posts, i, c) implies walk.contains(c) by {
        assert(same_chain(posts, walk[0], c));
    }
    if k > 0 {
        let j = walk[k - 1];
        assert(same_chain(posts, walk[0], j));
        assert forall|c: int|
            0 <= c < posts.len() && same_chain(posts, i, c) && #[trigger] comes_before(posts, c, i) implies c
            == j || comes_before(posts, c, j) by {
            assert(walk.contains(c));
            let m = choose|m: int| 0 <= m < walk.len() && walk[m] == c;
            if m > k {
                assert(comes_before(posts, walk[k], walk[m]));
            }
            if m < k - 1 {
                assert(comes_before(posts, walk[m], walk[k - 1]));
            }
        }
    }
    if k + 1 < walk.len() {
        let j = walk[k + 1];
        assert(same_chain(posts, walk[0], j));
        assert forall|c: int|
            0 <= c < posts.len() && same_chain(posts, i, c) && #[trigger] comes_before(posts, i, c) implies c
            == j || comes_before(posts, j, c) by {
            assert(walk.contains(c));
            let m = choose|m: int| 0 <= m < walk.len() && walk[m] == c;
            if m < k {
                assert(comes_before(posts, walk[m], walk[k]));
            }
            if m > k + 1 {
                assert(comes_before(posts, walk[k + 1], walk[m]));
            }
        }
    }
    if k == 0 {
        assert forall|j: int| !is_predecessor(posts, j, i) by {
            if is_predecessor(posts, j, i) {
                assert(walk.contains(j));
                let m = choose|m: int| 0 <= m < walk.len() && walk[m] == j;
                if m > 0 {
                    assert(comes_before(posts, walk[0], walk[m]));
                }
            }
        }
    }
    if k + 1 == walk.len() {
        assert forall|j: int| !is_successor(posts, j, i) by {
            if is_successor(posts, j, i) {
                assert(walk.contains(j));
                let m = choose|m: int| 0 <= m < walk.len() && walk[m] == j;
                if m < k {
                    assert(comes_before(posts, walk[m], walk[k]));
                }
            }
        }
    }
}

/// Filling in the links a second time changes nothing.
pub proof fn lemma_linked_once(posts: Seq<PostModel>)
    ensures
        linked_catalog(linked_catalog(posts)) == linked_catalog(posts),
{
    let once = linked_catalog(posts);
    assert forall|i: int| 0 <= i < posts.len() implies linked(once, i) == #[trigger] linked(posts, i) by {
        assert forall|j: int| is_predecessor(once, j, i) == is_predecessor(posts, j, i) by {
            lemma_same_order(posts, i, j);
        }
        assert forall|j: int| is_successor(once, j, i) == is_successor(posts, j, i) by {
            lemma_same_order(posts, i, j);
        }
        if exists|j: int| is_predecessor(posts, j, i) {
            let a = choose|j: int| is_predecessor(posts, j, i);
            let b = choose|j: int| is_predecessor(once, j, i);
            lemma_neighbours_unique(posts, i, a, b);
        }
        if exists|j: int| is_successor(posts, j, i) {
            let a = choose|j: int| is_successor(posts, j, i);
            let b = choose|j: int| is_successor(once, j, i);
            lemma_neighbours_unique(posts, i, a, b);
        }
        assert(computed_prev(once, i) == computed_prev(posts, i));
        assert(computed_next(once, i) == computed_next(posts, i));
    }
    assert(linked_catalog(once) =~= once);
}

/// Filling in the links changes neither the chains nor the order within them.
proof fn lemma_same_order(posts: Seq<PostModel>, i: int, j: int)
    requires
        0 <= i < posts.len(),
    ensures
        is_predecessor(linked_catalog(posts), j, i) == is_predecessor(posts, j, i),
        is_successor(linked_catalog(posts), j, i) == is_successor(posts, j, i),
{
    let once = linked_catalog(posts);
    assert forall|k: int| 0 <= k < posts.len() implies (#[trigger] same_chain(once, i, k) == same_chain(
        posts,
        i,
        k,
    ) && comes_before(once, k, i) == comes_before(posts, k, i) && comes_before(once, i, k) == comes_before(
        posts,
        i,
        k,
    )) by {
        assert(once[k] == linked(posts, k));
        assert(once[i] == linked(posts, i));
    }
    if 0 <= j < posts.len() {
        assert(same_chain(once, i, j) == same_chain(posts, i, j));
        assert forall|k: int| 0 <= k < posts.len() implies (comes_before(once, k, j) == comes_before(posts, k, j)
            && comes_before(once, j, k) == comes_before(posts, j, k)) by {
            assert(once[k] == linked(posts, k));
            assert(once[j] == linked(posts, j));
        }
        if is_predecessor(posts, j, i) {
            assert forall|k: int|
                0 <= k < once.len() && same_chain(once, i, k) && #[trigger] comes_before(once, k, i) implies k
                == j || comes_before(once, k, j) by {
                assert(same_chain(once, i, k) == same_chain(posts, i, k));
                assert(comes_before(posts, k, i));
            }
        }
        if is_predecessor(once, j, i) {
            assert forall|k: int|
                0 <= k < posts.len() && same_chain(posts, i, k) && #[trigger] comes_before(posts, k, i) implies k
                == j || comes_before(posts, k, j) by {
                assert(same_chain(once, i, k) == same_chain(posts, i, k));
                assert(comes_before(once, k, i));
            }
        }
        if is_successor(posts, j, i) {
            assert forall|k: int|
                0 <= k < once.len() && same_chain(once, i, k) && #[trigger] comes_before(once, i, k) implies k
                == j || comes_before(once, j, k) by {
                assert(same_chain(once, i, k) == same_chain(posts, i, k));
                assert(comes_before(posts, i, k));
            }
        }
        if is_successor(once, j, i) {
            assert forall|k: int|
                0 <= k < posts.len() && same_chain(posts, i, k) && #[trigger] comes_before(posts, i, k) implies k
                == j || comes_before(posts, j, k) by {
                assert(same_chain(once, i, k) == same_chain(posts, i, k));
                assert(comes_before(once, i, k));
            }
        }
    }
}

/// Whether a post belongs to the series `name`.
pub open spec fn in_series(p: PostModel, name: Seq<char>) -> bool {
    p.metadata.series == Some(name)
}

/// `in_series` as a predicate on posts.
pub open spec fn series_filter(name: Seq<char>) -> spec_fn(PostModel) -> bool {
    |p: PostModel| in_series(p, name)
}

/// The keys that put posts in chain order if `ascending`, else in the opposite order.
pub open spec fn series_keys(posts: Seq<PostModel>, ascending: bool) -> Seq<int> {
    posts.map_values(
        |p: PostModel|
            if ascending {
                series_key(p)
            } else {
                -series_key(p)
            },
    )
}

/// The posts in stable chain order, or in the opposite order.
pub open spec fn by_series_order(posts: Seq<PostModel>, ascending: bool) -> Seq<PostModel> {
    select(posts, stable_order(series_keys(posts, ascending), posts.len()))
}

/// The posts of a series: one per translation key, in chain order or the opposite.
pub open spec fn posts_by_series(posts: Seq<PostModel>, name: Seq<char>, lang: Lang, ascending: bool) -> Seq<
    PostModel,
> {
    by_series_order(dedup(posts.filter(series_filter(name)), lang), ascending)
}

/// Whether the post belongs to the series `name`.
pub fn is_in_series(p: &Post, name: &str) -> (r: bool)
    ensures
        r == in_series(p@, name@),
{
    match &p.metadata.series {
        Some(s) => {
            let r = str_eq(s.as_str(), name);
            assert(r == (Some(s@) == Some(name@)));
            r
        },
        None => false,
    }
}

/// The posts of the series `series_name`: one per translation key, preferring `lang`,
/// in chain order if `sort_asc`, else in the opposite order.
pub fn get_posts_by_series(posts: &[Post], series_name: &str, lang: Lang, sort_asc: bool) -> (r: Vec<Post>)
    ensures
        catalog(r@) == posts_by_series(catalog(posts@), series_name@, lang, sort_asc),
{
    let ghost pred = series_filter(series_name@);
    let ghost model = catalog(posts@);
    let mut kept: Vec<&Post> = Vec::new();
    let mut i: usize = 0;
    while i < posts.len()
        invariant
            i <= posts.len(),
            model == catalog(posts@),
            pred == series_filter(series_name@),
            refs(kept@) == model.take(i as int).filter(pred),
        decreases posts.len() - i,
    {
        let p = &posts[i];
        let wanted = is_in_series(p, series_name);
        proof {
            reveal(Seq::filter);
            assert(model.take(i + 1).drop_last() =~= model.take(i as int));
            assert(model.take(i + 1).last() == p@);
            assert(wanted == pred(p@));
        }
        let ghost before = refs(kept@);
        if wanted {
            kept.push(p);
            assert(refs(kept@) =~= before.push(p@));
        }
        i += 1;
    }
    assert(model.take(posts@.len() as int) =~= model);
    let unique = dedup_refs_by_translation(kept, lang);
    let mut keys: Vec<i128> = Vec::new();
    let mut i: usize = 0;
    while i < unique.len()
        invariant
            i <= unique.len(),
            keys.len() == i,
            forall|j: int| 0 <= j < i ==> keys[j] as int == series_keys(refs(unique@), sort_asc)[j],
        decreases unique.len() - i,
    {
        let k = series_sort_key(unique[i]);
        if sort_asc {
            keys.push(k);
        } else {
            keys.push(-k);
        }
        i += 1;
    }
    assert(keys_of(keys@) =~= series_keys(refs(unique@), sort_asc));
    let order = sort_positions(&keys);
    let sorted = pick_refs(&unique, &order);
    to_owned(&sorted)
}

/// Whether some post belongs to the series `name`.
pub open spec fn is_series_name(posts: Seq<PostModel>, name: Seq<char>) -> bool {
    exists|i: int| 0 <= i < posts.len() && (#[trigger] posts[i]).metadata.series == Some(name)
}

/// Whether a list of texts is in strictly ascending dictionary order.
pub open spec fn strictly_ascending(names: Seq<Seq<char>>) -> bool {
    forall|a: int, b: int| 0 <= a < b < names.len() ==> text_lt(#[trigger] names[a], #[trigger] names[b])
}

/// The names of all series, each once, in dictionary order.
pub fn get_series_names(posts: &[Post]) -> (r: Vec<String>)
    ensures
        strictly_ascending(texts(r@)),
        forall|name: Seq<char>| texts(r@).contains(name) <==> is_series_name(catalog(posts@), name),
{
    let ghost model = catalog(posts@);
    let mut names: Vec<String> = Vec::new();
    let mut i: usize = 0;
    while i < posts.len()
        invariant
            i <= posts.len(),
            model == catalog(posts@),
            strictly_ascending(texts(names@)),
            forall|name: Seq<char>| texts(names@).contains(name) <==> is_series_name(model.take(i as int), name),
        decreases posts.len() - i,
    {
        let ghost before = texts(names@);
        proof {
            assert forall|name: Seq<char>| is_series_name(model.take(i + 1), name) <==> (is_series_name(
                model.take(i as int),
                name,
            ) || model[i as int].metadata.series == Some(name)) by {
                if is_series_name(model.take(i + 1), name) {
                    let w = choose|w: int|
                        0 <= w < i + 1 && (#[trigger] model.take(i + 1)[w]).metadata.series == Some(name);
                    if w < i {
                        assert(model.take(i as int)[w].metadata.series == Some(name));
                    }
                }
                if is_series_name(model.take(i as int), name) {
                    let w = choose|w: int|
                        0 <= w < i && (#[trigger] model.take(i as int)[w]).metadata.series == Some(name);
                    assert(model.take(i + 1)[w].metadata.series == Some(name));
                }
                if model[i as int].metadata.series == Some(name) {
                    assert(model.take(i + 1)[i as int].metadata.series == Some(name));
                }
            }
        }
        match &posts[i].metadata.series {
            Some(s) => {
                let mut j: usize = 0;
                while j < names.len() && compare_text(names[j].as_str(), s.as_str()) == TextOrder::Before
                    invariant
                        j <= names.len(),
                        before == texts(names@),
                        forall|k: int| 0 <= k < j ==> text_lt(#[trigger] before[k], s@),
                    decreases names.len() - j,
                {
                    assert(before[j as int] == names[j as int]@);
                    j += 1;
                }
                let present = j < names.len() && compare_text(names[j].as_str(), s.as_str()) == TextOrder::Same;
                if present {
                    assert(before[j as int] == s@);
                    assert(before.contains(s@));
                } else {
                    proof {
                        if j < names.len() {
                            assert(before[j as int] == names[j as int]@);
                            assert(text_lt(s@, before[j as int]));
                        }
                        assert forall|k: int| j <= k < before.len() implies text_lt(s@, #[trigger] before[k]) by {
                            if k > j {
                                lemma_text_lt_transitive(s@, before[j as int], before[k]);
                            }
                        }
                    }
                    names.insert(j, s.clone());
                    let ghost after = texts(names@);
                    assert(after =~= before.insert(j as int, s@));
                    assert(after[j as int] == s@);
                    assert forall|a: int, b: int| 0 <= a < b < after.len() implies text_lt(
                        #[trigger] after[a],
                        #[trigger] after[b],
                    ) by {
                        if b < j {
                            assert(after[a] == before[a] && after[b] == before[b]);
                        } else if b == j {
                            assert(after[a] == before[a]);
                        } else if a < j {
                            assert(after[a] == before[a] && after[b] == before[b - 1]);
                        } else if a == j {
                            assert(after[b] == before[b - 1]);
                        } else {
                            assert(after[a] == before[a - 1] && after[b] == before[b - 1]);
                        }
                    }
                    assert forall|name: Seq<char>| after.contains(name) <==> (before.contains(name) || name
                        == s@) by {
                        if after.contains(name) {
                            let w = choose|w: int| 0 <= w < after.len() && after[w] == name;
                            if w < j {
                                assert(before[w] == name);
                            } else if w > j {
                                assert(before[w - 1] == name);
                            }
                        }
                        if before.contains(name) {
                            let w = choose|w: int| 0 <= w < before.len() && before[w] == name;
                            if w < j {
                                assert(after[w] == name);
                            } else {
                                assert(after[w + 1] == name);
                            }
                        }
                    }
                }
            },
            None => {},
        }
        i += 1;
    }
    assert(model.take(posts@.len() as int) =~= model);
    names
}

/// Filling in the links changes neither the reading time nor the table of contents of a post.
pub proof fn lemma_linked_well_formed(posts: Seq<PostModel>, i: int)
    requires
        0 <= i < posts.len(),
    ensures
        linked(posts, i).well_formed() == posts[i].well_formed(),
{
    let before = posts[i];
    let after = linked(posts, i);
    assert(after.toc == before.toc && after.reading_time_min == before.reading_time_min);
    if before.well_formed() {
        assert(after.well_formed());
    }
    if after.well_formed() {
        assert forall|a: int, b: int| 0 <= a < b < before.toc.len() implies (#[trigger] before.toc[a]).id != (
        #[trigger] before.toc[b]).id by {
            assert(after.toc[a].id != after.toc[b].id);
        }
        assert forall|k: int| 0 <= k < before.toc.len() implies (#[trigger] before.toc[k]).level == 2
            || before.toc[k].level == 3 by {
            assert(after.toc[k].level == 2 || after.toc[k].level == 3);
        }
    }
}

} // verus!
