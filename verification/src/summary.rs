//! The summaries of the series: one record for each series that has a post.

use vstd::prelude::*;
use crate::lang::Lang;
use crate::post::{as_refs, catalog, refs, Post, PostModel, Timestamp};
use crate::series::in_series;
use crate::sort::{keys_of, lemma_stable_order, sort_positions, stable_order};
use crate::text::{clone_opt, clone_strings, contains_text, opt_text, str_eq, texts};

verus! {

/// The summary of one series.
#[derive(Debug)]
pub struct Series {
    pub name: String,
    /// The first description that a member post gives, if any does.
    pub description: Option<String>,
    /// The first status that a member post gives, if any does.
    pub status: Option<String>,
    /// The authors of the member posts, each once, in order of first appearance.
    pub authors: Vec<String>,
    /// The latest update among the member posts.
    pub updated_at: Timestamp,
    /// The number of member posts.
    pub post_count: usize,
}

/// The model of a `Series`.
pub ghost struct SeriesModel {
    pub name: Seq<char>,
    pub description: Option<Seq<char>>,
    pub status: Option<Seq<char>>,
    pub authors: Seq<Seq<char>>,
    pub updated_at: Timestamp,
    pub post_count: nat,
}

impl View for Series {
    type V = SeriesModel;

    open spec fn view(&self) -> SeriesModel {
        SeriesModel {
            name: self.name@,
            description: opt_text(self.description),
            status: opt_text(self.status),
            authors: texts(self.authors@),
            updated_at: self.updated_at,
            post_count: self.post_count as nat,
        }
    }
}

impl Clone for Series {
    fn clone(&self) -> (r: Series)
        ensures
            r@ == self@,
    {
        Series {
            name: self.name.clone(),
            description: clone_opt(&self.description),
            status: clone_opt(&self.status),
            authors: clone_strings(&self.authors),
            updated_at: self.updated_at,
            post_count: self.post_count,
        }
    }
}

/// The model of a list of series.
pub open spec fn series_view(list: Seq<Series>) -> Seq<SeriesModel> {
    list.map_values(|s: Series| s@)
}

/// An optional text that counts only if it is not empty.
pub open spec fn non_empty(o: Option<Seq<char>>) -> Option<Seq<char>> {
    match o {
        Some(t) => if t.len() > 0 {
            Some(t)
        } else {
            None
        },
        None => None,
    }
}

/// The later of two timestamps, the first if they are equal.
pub open spec fn later(a: Timestamp, b: Timestamp) -> Timestamp {
    if b.key() > a.key() {
        b
    } else {
        a
    }
}

/// The summary of a series whose only member so far is `p`.
pub open spec fn opened(name: Seq<char>, p: PostModel) -> SeriesModel {
    SeriesModel {
        name,
        description: non_empty(p.metadata.series_description),
        status: non_empty(p.metadata.series_status),
        authors: seq![p.metadata.author],
        updated_at: p.metadata.updated_at,
        post_count: 1,
    }
}

/// The summary `s` after the member `p` has joined.
pub open spec fn joined(s: SeriesModel, p: PostModel) -> SeriesModel {
    SeriesModel {
        name: s.name,
        description: if s.description is Some {
            s.description
        } else {
            non_empty(p.metadata.series_description)
        },
        status: if s.status is Some {
            s.status
        } else {
            non_empty(p.metadata.series_status)
        },
        authors: if s.authors.contains(p.metadata.author) {
            s.authors
        } else {
            s.authors.push(p.metadata.author)
        },
        updated_at: later(s.updated_at, p.metadata.updated_at),
        post_count: s.post_count + 1,
    }
}

/// The first place at or after `from` in `list` of the series `name`, or `list.len()`.
pub open spec fn series_slot(list: Seq<SeriesModel>, name: Seq<char>, from: int) -> int
    decreases list.len() - from,
{
    if from >= list.len() {
        list.len() as int
    } else if list[from].name == name {
        from
    } else {
        series_slot(list, name, from + 1)
    }
}

/// The summaries after the post `p` has been counted.
pub open spec fn counted(list: Seq<SeriesModel>, p: PostModel) -> Seq<SeriesModel> {
    match p.metadata.series {
        None => list,
        Some(name) => {
            let j = series_slot(list, name, 0);
            if j >= list.len() {
                list.push(opened(name, p))
            } else {
                list.update(j, joined(list[j], p))
            }
        },
    }
}

/// The summaries of the series of the first `n` posts, in order of first appearance.
pub open spec fn summaries(posts: Seq<PostModel>, n: nat) -> Seq<SeriesModel>
    decreases n,
{
    if n == 0 {
        Seq::<SeriesModel>::empty()
    } else {
        counted(summaries(posts, (n - 1) as nat), posts[n - 1])
    }
}

/// The keys that order summaries by their latest update: oldest first if `ascending`.
pub open spec fn updated_keys(list: Seq<SeriesModel>, ascending: bool) -> Seq<int> {
    list.map_values(
        |s: SeriesModel|
            if ascending {
                s.updated_at.key()
            } else {
                -s.updated_at.key()
            },
    )
}

/// The summaries of all series of the catalog, over all its posts in all
/// languages, in stable order of their latest update.
pub open spec fn series_list(posts: Seq<PostModel>, ascending: bool) -> Seq<SeriesModel> {
    by_update(summaries(posts, posts.len()), ascending)
}

/// The summaries in stable order of their latest update: oldest first if
/// `ascending`, else newest first.
pub open spec fn by_update(list: Seq<SeriesModel>, ascending: bool) -> Seq<SeriesModel> {
    stable_order(updated_keys(list, ascending), list.len()).map_values(|i: int| list[i])
}

/// An owned copy of an optional text, if it is not empty.
fn non_empty_text(o: &Option<String>) -> (r: Option<String>)
    ensures
        opt_text(r) == non_empty(opt_text(*o)),
{
    match o {
        Some(t) => if t.as_str().is_empty() {
            None
        } else {
            Some(t.clone())
        },
        None => None,
    }
}

/// The summary of the series `name` with the single member `p`.
fn open_series(name: &String, p: &Post) -> (r: Series)
    ensures
        r@ == opened(name@, p@),
{
    let mut authors: Vec<String> = Vec::new();
    authors.push(p.metadata.author.clone());
    assert(texts(authors@) =~= seq![p.metadata.author@]);
    Series {
        name: name.clone(),
        description: non_empty_text(&p.metadata.series_description),
        status: non_empty_text(&p.metadata.series_status),
        authors,
        updated_at: p.metadata.updated_at,
        post_count: 1,
    }
}

/// The summary `s` with the further member `p`.
fn join_series(s: &Series, p: &Post) -> (r: Series)
    requires
        s.post_count < usize::MAX,
    ensures
        r@ == joined(s@, p@),
{
    let mut authors = clone_strings(&s.authors);
    if !contains_text(&s.authors, p.metadata.author.as_str()) {
        let ghost before = texts(authors@);
        authors.push(p.metadata.author.clone());
        assert(texts(authors@) =~= before.push(p.metadata.author@));
    }
    Series {
        name: s.name.clone(),
        description: if s.description.is_some() {
            clone_opt(&s.description)
        } else {
            non_empty_text(&p.metadata.series_description)
        },
        status: if s.status.is_some() {
            clone_opt(&s.status)
        } else {
            non_empty_text(&p.metadata.series_status)
        },
        authors,
        updated_at: if p.metadata.updated_at.is_after(s.updated_at) {
            p.metadata.updated_at
        } else {
            s.updated_at
        },
        post_count: s.post_count + 1,
    }
}

/// The summaries of all series: one for each series that a post of the catalog
/// belongs to, made from all posts of the series in all languages; by latest
/// update, oldest first if `sort_asc`, else newest first.
///
/// `lang` is the language of the reader. It does not decide which posts are
/// counted: the summaries are the same for every language.
#[allow(unused_variables)]
pub fn get_series(posts: &[Post], lang: Lang, sort_asc: bool) -> (r: Vec<Series>)
    ensures
        series_view(r@) == series_list(catalog(posts@), sort_asc),
        sums_up(catalog(posts@), series_view(r@), posts@.len()),
{
    proof {
        lemma_series_list(catalog(posts@), sort_asc);
    }
    let all = as_refs(posts);
    let ghost model = refs(all@);
    let mut list: Vec<Series> = Vec::new();
    let mut i: usize = 0;
    while i < all.len()
        invariant
            i <= all.len(),
            model == refs(all@),
            series_view(list@) == summaries(model, i as nat),
            forall|k: int| 0 <= k < list.len() ==> (#[trigger] list[k]).post_count <= i,
        decreases all.len() - i,
    {
        let p = all[i];
        let ghost before = series_view(list@);
        assert(model[i as int] == p@);
        match &p.metadata.series {
            None => {},
            Some(name) => {
                let mut j: usize = 0;
                while j < list.len() && !str_eq(list[j].name.as_str(), name.as_str())
                    invariant
                        j <= list.len(),
                        before == series_view(list@),
                        series_slot(before, name@, 0) == series_slot(before, name@, j as int),
                    decreases list.len() - j,
                {
                    assert(before[j as int].name == list[j as int].name@);
                    j += 1;
                }
                proof {
                    if j < list.len() {
                        assert(before[j as int].name == list[j as int].name@);
                    }
                    assert(series_slot(before, name@, 0) == j);
                }
                if j >= list.len() {
                    list.push(open_series(name, p));
                    assert(series_view(list@) =~= before.push(opened(name@, p@)));
                } else {
                    let merged = join_series(&list[j], p);
                    assert(before[j as int] == list[j as int]@);
                    list.set(j, merged);
                    assert(series_view(list@) =~= before.update(j as int, joined(before[j as int], p@)));
                }
            },
        }
        assert(series_view(list@) == counted(before, p@));
        i += 1;
    }
    sort_series(&list, sort_asc)
}

/// The summaries in stable order of their latest update: oldest first if
/// `ascending`, else newest first.
pub fn sort_series(list: &Vec<Series>, ascending: bool) -> (r: Vec<Series>)
    ensures
        series_view(r@) == by_update(series_view(list@), ascending),
{
    let sort_asc = ascending;
    let ghost summary = series_view(list@);
    let mut keys: Vec<i128> = Vec::new();
    let mut i: usize = 0;
    while i < list.len()
        invariant
            i <= list.len(),
            keys.len() == i,
            summary == series_view(list@),
            forall|j: int| 0 <= j < i ==> keys[j] as int == updated_keys(summary, sort_asc)[j],
        decreases list.len() - i,
    {
        let k = list[i].updated_at.sort_key();
        assert(summary[i as int] == list[i as int]@);
        if sort_asc {
            keys.push(k);
        } else {
            keys.push(-k);
        }
        i += 1;
    }
    assert(keys_of(keys@) =~= updated_keys(summary, sort_asc));
    let order = sort_positions(&keys);
    let mut r: Vec<Series> = Vec::new();
    let mut k: usize = 0;
    while k < order.len()
        invariant
            k <= order.len(),
            r.len() == k,
            order.len() == list.len(),
            forall|j: int| 0 <= j < order.len() ==> 0 <= #[trigger] order[j] < list.len(),
            forall|j: int| 0 <= j < k ==> r[j]@ == list[order[j] as int]@,
        decreases order.len() - k,
    {
        r.push(list[order[k]].clone());
        k += 1;
    }
    assert(series_view(r@) =~= order@.map_values(|i: usize| i as int).map_values(|i: int| summary[i]));
    r
}

/// The place of the series `name` in a list of summaries, if it is there.
pub fn find_series(list: &Vec<Series>, name: &str) -> (r: Option<usize>)
    ensures
        match r {
            Some(i) => i < list.len() && i == series_slot(series_view(list@), name@, 0),
            None => series_slot(series_view(list@), name@, 0) == list.len(),
        },
{
    let ghost model = series_view(list@);
    let mut i: usize = 0;
    while i < list.len()
        invariant
            i <= list.len(),
            model == series_view(list@),
            series_slot(model, name@, 0) == series_slot(model, name@, i as int),
        decreases list.len() - i,
    {
        assert(model[i as int].name == list[i as int].name@);
        if str_eq(list[i].name.as_str(), name) {
            return Some(i);
        }
        i += 1;
    }
    None
}

/// The number of posts among the first `n` that belong to the series `name`.
pub open spec fn member_count(posts: Seq<PostModel>, name: Seq<char>, n: nat) -> nat
    decreases n,
{
    if n == 0 {
        0
    } else {
        member_count(posts, name, (n - 1) as nat) + if in_series(posts[n - 1], name) {
            1nat
        } else {
            0nat
        }
    }
}

/// The first description that is not empty among those of the first `n` posts that
/// belong to the series `name`, in the order of the catalog.
pub open spec fn first_description(posts: Seq<PostModel>, name: Seq<char>, n: nat) -> Option<Seq<char>>
    decreases n,
{
    if n == 0 {
        None
    } else {
        let before = first_description(posts, name, (n - 1) as nat);
        if before is Some {
            before
        } else if in_series(posts[n - 1], name) {
            non_empty(posts[n - 1].metadata.series_description)
        } else {
            None
        }
    }
}

/// The first status that is not empty among those of the first `n` posts that
/// belong to the series `name`, in the order of the catalog.
pub open spec fn first_status(posts: Seq<PostModel>, name: Seq<char>, n: nat) -> Option<Seq<char>>
    decreases n,
{
    if n == 0 {
        None
    } else {
        let before = first_status(posts, name, (n - 1) as nat);
        if before is Some {
            before
        } else if in_series(posts[n - 1], name) {
            non_empty(posts[n - 1].metadata.series_status)
        } else {
            None
        }
    }
}

/// Whether one of the first `n` posts belongs to the series `name` and was written by `author`.
pub open spec fn wrote_for(posts: Seq<PostModel>, name: Seq<char>, author: Seq<char>, n: nat) -> bool {
    exists|i: int| 0 <= i < n && in_series(#[trigger] posts[i], name) && posts[i].metadata.author == author
}

/// Whether one of the first `n` posts belongs to the series `name` and was last updated at `at`.
pub open spec fn updated_for(posts: Seq<PostModel>, name: Seq<char>, at: Timestamp, n: nat) -> bool {
    exists|i: int| 0 <= i < n && in_series(#[trigger] posts[i], name) && posts[i].metadata.updated_at == at
}

/// Whether `s` sums up the posts among the first `n` that belong to its series.
///
/// It counts them, and there is at least one. Its description and status are
/// the first that are not empty. Its update is the update of a member, and none
/// was updated later. Its authors are the authors of the members, each once.
pub open spec fn summarises(posts: Seq<PostModel>, s: SeriesModel, n: nat) -> bool {
    &&& s.post_count == member_count(posts, s.name, n)
    &&& s.post_count >= 1
    &&& s.description == first_description(posts, s.name, n)
    &&& s.status == first_status(posts, s.name, n)
    &&& updated_for(posts, s.name, s.updated_at, n)
    &&& forall|i: int|
        0 <= i < n && in_series(#[trigger] posts[i], s.name) ==> posts[i].metadata.updated_at.key()
            <= s.updated_at.key() && s.authors.contains(posts[i].metadata.author)
    &&& forall|a: int, b: int| 0 <= a < b < s.authors.len() ==> #[trigger] s.authors[a] != #[trigger] s.authors[b]
    &&& forall|a: int| 0 <= a < s.authors.len() ==> wrote_for(posts, s.name, #[trigger] s.authors[a], n)
}

/// Whether a list of summaries has the series `name`.
pub open spec fn has_series(list: Seq<SeriesModel>, name: Seq<char>) -> bool {
    exists|k: int| 0 <= k < list.len() && (#[trigger] list[k]).name == name
}

/// Whether `list` holds the summaries of the series of the first `n` posts: one
/// for each series that one of them belongs to, none twice, and each summing up
/// the posts of its series.
pub open spec fn sums_up(posts: Seq<PostModel>, list: Seq<SeriesModel>, n: nat) -> bool {
    &&& forall|a: int, b: int| 0 <= a < b < list.len() ==> (#[trigger] list[a]).name != (#[trigger] list[b]).name
    &&& forall|i: int|
        0 <= i < n && (#[trigger] posts[i]).metadata.series is Some ==> has_series(list, posts[i].metadata.series->0)
    &&& forall|k: int| 0 <= k < list.len() ==> summarises(posts, #[trigger] list[k], n)
}

proof fn lemma_series_slot(list: Seq<SeriesModel>, name: Seq<char>, from: int)
    requires
        0 <= from <= list.len(),
    ensures
        from <= series_slot(list, name, from) <= list.len(),
        series_slot(list, name, from) < list.len() ==> list[series_slot(list, name, from)].name == name,
        forall|j: int| from <= j < series_slot(list, name, from) ==> (#[trigger] list[j]).name != name,
    decreases list.len() - from,
{
    if from < list.len() && list[from].name != name {
        lemma_series_slot(list, name, from + 1);
    }
}

/// A series without a member among the first `n` posts has no count, description or status.
proof fn lemma_no_members(posts: Seq<PostModel>, name: Seq<char>, n: nat)
    requires
        n <= posts.len(),
        forall|i: int| 0 <= i < n ==> !in_series(#[trigger] posts[i], name),
    ensures
        member_count(posts, name, n) == 0,
        first_description(posts, name, n) is None,
        first_status(posts, name, n) is None,
    decreases n,
{
    if n > 0 {
        lemma_no_members(posts, name, (n - 1) as nat);
    }
}

/// A summary still sums up its series after a post of another series, or of none.
proof fn lemma_passed(posts: Seq<PostModel>, s: SeriesModel, n: nat)
    requires
        n < posts.len(),
        summarises(posts, s, n),
        !in_series(posts[n as int], s.name),
    ensures
        summarises(posts, s, n + 1),
{
    let w = choose|i: int| 0 <= i < n && in_series(#[trigger] posts[i], s.name) && posts[i].metadata.updated_at
        == s.updated_at;
    assert(0 <= w < n + 1);
    assert forall|a: int| 0 <= a < s.authors.len() implies wrote_for(posts, s.name, #[trigger] s.authors[a], n + 1) by {
        assert(wrote_for(posts, s.name, s.authors[a], n));
        let i = choose|i: int|
            0 <= i < n && in_series(#[trigger] posts[i], s.name) && posts[i].metadata.author == s.authors[a];
        assert(0 <= i < n + 1);
    }
}

/// A summary with a further member of its series sums up the series with that member.
proof fn lemma_joined(posts: Seq<PostModel>, s: SeriesModel, n: nat)
    requires
        n < posts.len(),
        summarises(posts, s, n),
        in_series(posts[n as int], s.name),
    ensures
        summarises(posts, joined(s, posts[n as int]), n + 1),
{
    let p = posts[n as int];
    let t = joined(s, p);
    assert(updated_for(posts, t.name, t.updated_at, n + 1)) by {
        if p.metadata.updated_at.key() > s.updated_at.key() {
            assert(in_series(posts[n as int], t.name) && posts[n as int].metadata.updated_at == t.updated_at);
        } else {
            let w = choose|i: int|
                0 <= i < n && in_series(#[trigger] posts[i], s.name) && posts[i].metadata.updated_at
                    == s.updated_at;
            assert(0 <= w < n + 1);
        }
    }
    assert forall|i: int| 0 <= i < n + 1 && in_series(#[trigger] posts[i], t.name) implies posts[i].metadata.updated_at.key()
        <= t.updated_at.key() && t.authors.contains(posts[i].metadata.author) by {
        if i < n {
            assert(s.authors.contains(posts[i].metadata.author));
            let w = choose|w: int| 0 <= w < s.authors.len() && s.authors[w] == posts[i].metadata.author;
            assert(t.authors[w] == posts[i].metadata.author);
        } else if !s.authors.contains(p.metadata.author) {
            assert(t.authors[s.authors.len() as int] == p.metadata.author);
        } else {
            assert(t.authors == s.authors);
        }
    }
    assert forall|a: int, b: int| 0 <= a < b < t.authors.len() implies #[trigger] t.authors[a] != #[trigger] t.authors[b] by {
        if b < s.authors.len() {
            assert(t.authors[a] == s.authors[a] && t.authors[b] == s.authors[b]);
        } else {
            assert(t.authors[a] == s.authors[a]);
            assert(s.authors.contains(s.authors[a]));
        }
    }
    assert forall|a: int| 0 <= a < t.authors.len() implies wrote_for(posts, t.name, #[trigger] t.authors[a], n + 1) by {
        if a < s.authors.len() {
            assert(t.authors[a] == s.authors[a]);
            assert(wrote_for(posts, s.name, s.authors[a], n));
            let i = choose|i: int|
                0 <= i < n && in_series(#[trigger] posts[i], s.name) && posts[i].metadata.author == s.authors[a];
            assert(0 <= i < n + 1);
        } else {
            assert(in_series(posts[n as int], t.name) && posts[n as int].metadata.author == t.authors[a]);
        }
    }
}

/// The summary that is opened for the first member of a series sums up the series.
proof fn lemma_opened(posts: Seq<PostModel>, name: Seq<char>, n: nat)
    requires
        n < posts.len(),
        in_series(posts[n as int], name),
        forall|i: int| 0 <= i < n ==> !in_series(#[trigger] posts[i], name),
    ensures
        summarises(posts, opened(name, posts[n as int]), n + 1),
{
    let p = posts[n as int];
    let t = opened(name, p);
    lemma_no_members(posts, name, n);
    assert(in_series(posts[n as int], name) && posts[n as int].metadata.updated_at == t.updated_at);
    assert(t.authors[0] == p.metadata.author);
    assert forall|a: int| 0 <= a < t.authors.len() implies wrote_for(posts, t.name, #[trigger] t.authors[a], n + 1) by {
        assert(in_series(posts[n as int], name) && posts[n as int].metadata.author == t.authors[a]);
    }
}

proof fn lemma_counted(posts: Seq<PostModel>, list: Seq<SeriesModel>, n: nat)
    requires
        n < posts.len(),
        sums_up(posts, list, n),
    ensures
        sums_up(posts, counted(list, posts[n as int]), n + 1),
{
    let p = posts[n as int];
    let out = counted(list, p);
    match p.metadata.series {
        None => {
            assert forall|k: int| 0 <= k < out.len() implies summarises(posts, #[trigger] out[k], n + 1) by {
                lemma_passed(posts, list[k], n);
            }
        },
        Some(name) => {
            let j = series_slot(list, name, 0);
            lemma_series_slot(list, name, 0);
            if j >= list.len() {
                let fresh = opened(name, p);
                assert(out =~= list.push(fresh));
                assert forall|i: int| 0 <= i < n implies !in_series(#[trigger] posts[i], name) by {
                    if in_series(posts[i], name) {
                        assert(has_series(list, posts[i].metadata.series->0));
                        let w = choose|w: int| 0 <= w < list.len() && (#[trigger] list[w]).name == name;
                        assert(false);
                    }
                }
                lemma_opened(posts, name, n);
                assert forall|a: int, b: int| 0 <= a < b < out.len() implies (#[trigger] out[a]).name != (
                #[trigger] out[b]).name by {
                    if b < list.len() {
                        assert(out[a] == list[a] && out[b] == list[b]);
                    } else {
                        assert(out[a] == list[a]);
                    }
                }
                assert forall|i: int|
                    0 <= i < n + 1 && (#[trigger] posts[i]).metadata.series is Some implies has_series(
                    out,
                    posts[i].metadata.series->0,
                ) by {
                    if i < n {
                        let k = choose|k: int|
                            0 <= k < list.len() && (#[trigger] list[k]).name == posts[i].metadata.series->0;
                        assert(out[k].name == posts[i].metadata.series->0);
                    } else {
                        assert(out[list.len() as int].name == name);
                    }
                }
                assert forall|k: int| 0 <= k < out.len() implies summarises(posts, #[trigger] out[k], n + 1) by {
                    if k < list.len() {
                        assert(out[k] == list[k]);
                        lemma_passed(posts, list[k], n);
                    }
                }
            } else {
                let merged = joined(list[j], p);
                assert(out =~= list.update(j, merged));
                assert forall|a: int, b: int| 0 <= a < b < out.len() implies (#[trigger] out[a]).name != (
                #[trigger] out[b]).name by {
                    assert(out[a].name == list[a].name && out[b].name == list[b].name);
                }
                assert forall|i: int|
                    0 <= i < n + 1 && (#[trigger] posts[i]).metadata.series is Some implies has_series(
                    out,
                    posts[i].metadata.series->0,
                ) by {
                    if i < n {
                        let k = choose|k: int|
                            0 <= k < list.len() && (#[trigger] list[k]).name == posts[i].metadata.series->0;
                        assert(out[k].name == posts[i].metadata.series->0);
                    } else {
                        assert(out[j].name == name);
                    }
                }
                assert forall|k: int| 0 <= k < out.len() implies summarises(posts, #[trigger] out[k], n + 1) by {
                    if k != j {
                        assert(out[k] == list[k]);
                        if k < j {
                            assert(list[k].name != list[j].name);
                        } else {
                            assert(list[j].name != list[k].name);
                        }
                        lemma_passed(posts, list[k], n);
                    } else {
                        lemma_joined(posts, list[j], n);
                    }
                }
            }
        },
    }
}

/// The summaries hold one record for each series that has a post, and none
/// twice; each record sums up the posts of its series.
pub proof fn lemma_summaries(posts: Seq<PostModel>, n: nat)
    requires
        n <= posts.len(),
    ensures
        sums_up(posts, summaries(posts, n), n),
    decreases n,
{
    if n > 0 {
        lemma_summaries(posts, (n - 1) as nat);
        lemma_counted(posts, summaries(posts, (n - 1) as nat), (n - 1) as nat);
    }
}

/// The list of series holds one record for each series that a post of the
/// catalog belongs to, whatever its language, and none twice; each record sums
/// up all posts of its series; and no record was updated before the one that
/// follows it, or after it if the order is ascending.
pub proof fn lemma_series_list(posts: Seq<PostModel>, ascending: bool)
    ensures
        sums_up(posts, series_list(posts, ascending), posts.len()),
        forall|a: int, b: int|
            0 <= a < b < series_list(posts, ascending).len() ==> (if ascending {
                (#[trigger] series_list(posts, ascending)[a]).updated_at.key() <= (#[trigger] series_list(
                    posts,
                    ascending,
                )[b]).updated_at.key()
            } else {
                series_list(posts, ascending)[a].updated_at.key() >= series_list(posts, ascending)[b].updated_at.key()
            }),
{
    let n = posts.len();
    let list = summaries(posts, n);
    let keys = updated_keys(list, ascending);
    let order = stable_order(keys, list.len());
    let out = series_list(posts, ascending);
    lemma_summaries(posts, n);
    lemma_stable_order(keys, list.len());
    assert forall|k: int| 0 <= k < out.len() implies out[k] == list[#[trigger] order[k]] && 0 <= order[k]
        < list.len() by {}
    assert forall|a: int, b: int| 0 <= a < b < out.len() implies (#[trigger] out[a]).name != (#[trigger] out[b]).name by {
        assert(order[a] != order[b]);
        if order[a] < order[b] {
            assert(list[order[a]].name != list[order[b]].name);
        } else {
            assert(list[order[b]].name != list[order[a]].name);
        }
    }
    assert forall|i: int| 0 <= i < n && (#[trigger] posts[i]).metadata.series is Some implies has_series(
        out,
        posts[i].metadata.series->0,
    ) by {
        let k = choose|k: int| 0 <= k < list.len() && (#[trigger] list[k]).name == posts[i].metadata.series->0;
        assert(order.contains(k));
        let w = choose|w: int| 0 <= w < order.len() && order[w] == k;
        assert(out[w].name == posts[i].metadata.series->0);
    }
    assert forall|k: int| 0 <= k < out.len() implies summarises(posts, #[trigger] out[k], n) by {
        assert(out[k] == list[order[k]]);
    }
    assert forall|a: int, b: int| 0 <= a < b < out.len() implies (if ascending {
        (#[trigger] out[a]).updated_at.key() <= (#[trigger] out[b]).updated_at.key()
    } else {
        out[a].updated_at.key() >= out[b].updated_at.key()
    }) by {
        assert(keys[order[a]] <= keys[order[b]]);
        assert(out[a] == list[order[a]] && out[b] == list[order[b]]);
    }
}

} // verus!
