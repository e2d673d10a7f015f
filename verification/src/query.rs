//! Read-only listings over the catalog.

use vstd::prelude::*;
use crate::lang::Lang;
use crate::post::{as_refs, catalog, pick_refs, refs, select, to_owned, Post, PostModel, PostType};
use crate::sort::{keys_of, lemma_stable_order, sort_positions, stable_order};
use crate::text::{contains_text, str_eq};
use crate::dedup::{dedup, dedup_refs_by_translation, lemma_representatives, representatives};

verus! {

/// The number of posts shown as recent.
pub const RECENT_POSTS: usize = 5;

/// The keys that order posts by creation time: oldest first if `ascending`, else newest first.
pub open spec fn created_keys(posts: Seq<PostModel>, ascending: bool) -> Seq<int> {
    posts.map_values(
        |p: PostModel|
            if ascending {
                p.metadata.created_at.key()
            } else {
                -p.metadata.created_at.key()
            },
    )
}

/// The posts in stable order of creation time.
pub open spec fn by_created(posts: Seq<PostModel>, ascending: bool) -> Seq<PostModel> {
    select(posts, stable_order(created_keys(posts, ascending), posts.len()))
}

/// The model of an optional borrowed string.
pub open spec fn opt_str(o: Option<&str>) -> Option<Seq<char>> {
    match o {
        Some(s) => Some(s@),
        None => None,
    }
}

/// Whether a post is of the kind `kind` and, if a tag is asked for, carries it.
pub open spec fn in_category(p: PostModel, kind: PostType, tag: Option<Seq<char>>) -> bool {
    p.post_type == kind && (tag matches Some(t) ==> p.metadata.tags.contains(t))
}

/// `in_category` as a predicate on posts.
pub open spec fn category_filter(kind: PostType, tag: Option<Seq<char>>) -> spec_fn(PostModel) -> bool {
    |p: PostModel| in_category(p, kind, tag)
}

/// The posts of a kind, optionally with a tag: one per translation key, by creation time.
pub open spec fn posts_by_category(
    posts: Seq<PostModel>,
    kind: PostType,
    tag: Option<Seq<char>>,
    lang: Lang,
    ascending: bool,
) -> Seq<PostModel> {
    by_created(dedup(posts.filter(category_filter(kind, tag)), lang), ascending)
}

/// The newest posts, one per translation key, at most `RECENT_POSTS` of them.
pub open spec fn recent(posts: Seq<PostModel>, lang: Lang) -> Seq<PostModel> {
    let all = by_created(dedup(posts, lang), false);
    if all.len() <= RECENT_POSTS {
        all
    } else {
        all.take(RECENT_POSTS as int)
    }
}

/// A listing by creation time holds the posts it was made from, each once, newest
/// first or oldest first, and posts of equal creation time in the order they were given in.
pub proof fn lemma_by_created(posts: Seq<PostModel>, ascending: bool)
    ensures
        by_created(posts, ascending).len() == posts.len(),
        forall|k: int| 0 <= k < posts.len() ==> posts.contains(#[trigger] by_created(posts, ascending)[k]),
        forall|i: int| 0 <= i < posts.len() ==> by_created(posts, ascending).contains(#[trigger] posts[i]),
        forall|a: int, b: int|
            0 <= a < b < posts.len() ==> (if ascending {
                (#[trigger] by_created(posts, ascending)[a]).metadata.created_at.key() <= (#[trigger] by_created(
                    posts,
                    ascending,
                )[b]).metadata.created_at.key()
            } else {
                by_created(posts, ascending)[a].metadata.created_at.key() >= by_created(
                    posts,
                    ascending,
                )[b].metadata.created_at.key()
            }),
{
    let keys = created_keys(posts, ascending);
    let order = stable_order(keys, posts.len());
    let out = by_created(posts, ascending);
    lemma_stable_order(keys, posts.len());
    assert forall|k: int| 0 <= k < posts.len() implies posts.contains(#[trigger] out[k]) by {
        assert(0 <= order[k] < posts.len());
        assert(out[k] == posts[order[k]]);
    }
    assert forall|i: int| 0 <= i < posts.len() implies out.contains(#[trigger] posts[i]) by {
        assert(order.contains(i));
        let w = choose|w: int| 0 <= w < order.len() && order[w] == i;
        assert(out[w] == posts[i]);
    }
    assert forall|a: int, b: int| 0 <= a < b < posts.len() implies (if ascending {
        (#[trigger] out[a]).metadata.created_at.key() <= (#[trigger] out[b]).metadata.created_at.key()
    } else {
        out[a].metadata.created_at.key() >= out[b].metadata.created_at.key()
    }) by {
        assert(0 <= order[a] < posts.len() && 0 <= order[b] < posts.len());
        assert(keys[order[a]] <= keys[order[b]]);
        assert(out[a] == posts[order[a]] && out[b] == posts[order[b]]);
    }
}

/// The recent posts are at most `RECENT_POSTS`, and none is older than one that follows it.
pub proof fn lemma_recent_newest_first(posts: Seq<PostModel>, lang: Lang)
    ensures
        recent(posts, lang).len() <= RECENT_POSTS,
        forall|a: int, b: int|
            0 <= a < b < recent(posts, lang).len() ==> (#[trigger] recent(posts, lang)[a]).metadata.created_at.key()
                >= (#[trigger] recent(posts, lang)[b]).metadata.created_at.key(),
{
    let d = dedup(posts, lang);
    lemma_by_created(d, false);
    let all = by_created(d, false);
    assert forall|a: int, b: int| 0 <= a < b < recent(posts, lang).len() implies (#[trigger] recent(
        posts,
        lang,
    )[a]).metadata.created_at.key() >= (#[trigger] recent(posts, lang)[b]).metadata.created_at.key() by {
        assert(recent(posts, lang)[a] == all[a]);
        assert(recent(posts, lang)[b] == all[b]);
    }
}

/// Where no two posts were created at the same time, each recent post is newer than
/// the one that follows it.
pub proof fn lemma_recent_strictly_newest_first(posts: Seq<PostModel>, lang: Lang)
    requires
        forall|i: int, j: int|
            0 <= i < j < posts.len() ==> (#[trigger] posts[i]).metadata.created_at.key() != (
            #[trigger] posts[j]).metadata.created_at.key(),
    ensures
        forall|a: int, b: int|
            0 <= a < b < recent(posts, lang).len() ==> (#[trigger] recent(posts, lang)[a]).metadata.created_at.key()
                > (#[trigger] recent(posts, lang)[b]).metadata.created_at.key(),
{
    let reps = representatives(posts, lang, posts.len());
    let d = dedup(posts, lang);
    let keys = created_keys(d, false);
    let order = stable_order(keys, d.len());
    lemma_representatives(posts, lang, posts.len());
    lemma_stable_order(keys, d.len());
    lemma_recent_newest_first(posts, lang);
    assert forall|a: int, b: int| 0 <= a < b < recent(posts, lang).len() implies (#[trigger] recent(
        posts,
        lang,
    )[a]).metadata.created_at.key() > (#[trigger] recent(posts, lang)[b]).metadata.created_at.key() by {
        let x = order[a];
        let y = order[b];
        assert(0 <= x < d.len() && 0 <= y < d.len() && x != y);
        assert(recent(posts, lang)[a] == d[x] && recent(posts, lang)[b] == d[y]);
        assert(d[x] == posts[reps[x]] && d[y] == posts[reps[y]]);
        assert(0 <= reps[x] < posts.len() && 0 <= reps[y] < posts.len());
        if x < y {
            assert(posts[reps[x]].translation_key != posts[reps[y]].translation_key);
        } else {
            assert(posts[reps[y]].translation_key != posts[reps[x]].translation_key);
        }
        assert(reps[x] != reps[y]);
        if reps[x] < reps[y] {
            assert(posts[reps[x]].metadata.created_at.key() != posts[reps[y]].metadata.created_at.key());
        } else {
            assert(posts[reps[y]].metadata.created_at.key() != posts[reps[x]].metadata.created_at.key());
        }
    }
}

/// The borrowed posts in stable order of creation time.
pub fn sort_by_created<'a>(posts: &Vec<&'a Post>, ascending: bool) -> (r: Vec<&'a Post>)
    ensures
        refs(r@) == by_created(refs(posts@), ascending),
{
    let mut keys: Vec<i128> = Vec::new();
    let mut i: usize = 0;
    while i < posts.len()
        invariant
            i <= posts.len(),
            keys.len() == i,
            forall|j: int| 0 <= j < i ==> keys[j] as int == created_keys(refs(posts@), ascending)[j],
        decreases posts.len() - i,
    {
        let k = posts[i].metadata.created_at.sort_key();
        if ascending {
            keys.push(k);
        } else {
            keys.push(-k);
        }
        i += 1;
    }
    assert(keys_of(keys@) =~= created_keys(refs(posts@), ascending));
    let order = sort_positions(&keys);
    pick_refs(posts, &order)
}

/// The posts of the kind `post_type`, only those tagged `category` if one is given:
/// one per translation key, preferring `lang`, oldest first if `sort_asc`, else newest first.
pub fn get_posts_by_category(
    posts: &[Post],
    post_type: PostType,
    category: Option<&str>,
    lang: Lang,
    sort_asc: bool,
) -> (r: Vec<Post>)
    ensures
        catalog(r@) == posts_by_category(catalog(posts@), post_type, opt_str(category), lang, sort_asc),
{
    let ghost pred = category_filter(post_type, opt_str(category));
    let ghost model = catalog(posts@);
    let mut kept: Vec<&Post> = Vec::new();
    let mut i: usize = 0;
    while i < posts.len()
        invariant
            i <= posts.len(),
            model == catalog(posts@),
            pred == category_filter(post_type, opt_str(category)),
            refs(kept@) == model.take(i as int).filter(pred),
        decreases posts.len() - i,
    {
        let p = &posts[i];
        let wanted = p.post_type.same(post_type) && match category {
            Some(c) => contains_text(&p.metadata.tags, c),
            None => true,
        };
        proof {
            reveal(Seq::filter);
            assert(model.take(i + 1).drop_last() =~= model.take(i as int));
            assert(model.take(i + 1).last() == p@);
            assert(wanted == pred(p@));
        }
        let ghost before = refs(kept@);
        if wanted {
            kept.push(p);
            assert(refs(kept@) =~= before.push(p@));
        }
        i += 1;
    }
    assert(model.take(posts@.len() as int) =~= model);
    let unique = dedup_refs_by_translation(kept, lang);
    let sorted = sort_by_created(&unique, sort_asc);
    to_owned(&sorted)
}

/// The five newest posts, one per translation key, preferring `lang`, newest first.
pub fn get_recent_posts(posts: &[Post], lang: Lang) -> (r: Vec<Post>)
    ensures
        catalog(r@) == recent(catalog(posts@), lang),
        r.len() <= RECENT_POSTS,
        forall|a: int, b: int|
            0 <= a < b < r.len() ==> (#[trigger] r[a]).metadata.created_at.key() >= (
            #[trigger] r[b]).metadata.created_at.key(),
{
    let all = as_refs(posts);
    let unique = dedup_refs_by_translation(all, lang);
    let mut sorted = sort_by_created(&unique, false);
    if sorted.len() > RECENT_POSTS {
        sorted.truncate(RECENT_POSTS);
        assert(refs(sorted@) =~= by_created(dedup(catalog(posts@), lang), false).take(RECENT_POSTS as int));
    }
    let r = to_owned(&sorted);
    proof {
        lemma_recent_newest_first(catalog(posts@), lang);
        assert forall|a: int, b: int| 0 <= a < b < r.len() implies (#[trigger] r[a]).metadata.created_at.key()
            >= (#[trigger] r[b]).metadata.created_at.key() by {
            assert(catalog(r@)[a] == r[a]@ && catalog(r@)[b] == r[b]@);
        }
    }
    r
}

/// The languages in which the post with the translation key `key` exists, in display order.
pub open spec fn translations_of(posts: Seq<PostModel>, key: Seq<char>) -> Seq<Lang> {
    Lang::display_order().filter(|l: Lang| has_variant(posts, key, l))
}

/// Whether some post has the translation key `key` and the language `lang`.
pub open spec fn has_variant(posts: Seq<PostModel>, key: Seq<char>, lang: Lang) -> bool {
    exists|i: int| 0 <= i < posts.len() && (#[trigger] posts[i]).translation_key == key && posts[i].lang == lang
}

/// Whether some post has the translation key `translation_key` and the language `lang`.
pub fn has_translation(posts: &[Post], translation_key: &str, lang: Lang) -> (r: bool)
    ensures
        r == has_variant(catalog(posts@), translation_key@, lang),
{
    let mut i: usize = 0;
    while i < posts.len()
        invariant
            i <= posts.len(),
            forall|j: int|
                0 <= j < i ==> !((#[trigger] catalog(posts@)[j]).translation_key == translation_key@ && catalog(
                    posts@,
                )[j].lang == lang),
        decreases posts.len() - i,
    {
        if posts[i].lang.same(lang) && str_eq(posts[i].translation_key.as_str(), translation_key) {
            assert(catalog(posts@)[i as int].translation_key == translation_key@);
            return true;
        }
        i += 1;
    }
    false
}

/// The languages in which the post with the given translation key is available, in display order.
pub fn get_available_translations(posts: &[Post], translation_key: &str) -> (r: Vec<Lang>)
    ensures
        r@ == translations_of(catalog(posts@), translation_key@),
{
    let ghost model = catalog(posts@);
    let ghost pred = |l: Lang| has_variant(model, translation_key@, l);
    let all = Lang::all();
    let mut r: Vec<Lang> = Vec::new();
    let mut k: usize = 0;
    while k < 3
        invariant
            k <= 3,
            all@ == Lang::display_order(),
            model == catalog(posts@),
            pred == (|l: Lang| has_variant(model, translation_key@, l)),
            r@ == all@.take(k as int).filter(pred),
        decreases 3 - k,
    {
        let l = all[k];
        let present = has_translation(posts, translation_key, l);
        proof {
            reveal(Seq::filter);
            assert(all@.take(k + 1).drop_last() =~= all@.take(k as int));
            assert(all@.take(k + 1).last() == l);
            assert(present == pred(l));
        }
        if present {
            r.push(l);
        }
        k += 1;
    }
    assert(all@.take(3) =~= all@);
    r
}

} // verus!
