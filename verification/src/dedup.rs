//! Collapsing the language variants of a post into one representative.
//!
//! Posts that share a translation key are variants of one logical post. For a
//! preferred language, each group is represented by its first variant in that
//! language, or by its first variant if it has none in that language. The
//! representatives come in the order in which their groups first appear.

use vstd::prelude::*;
use crate::lang::Lang;
use crate::post::{
    as_refs, catalog, in_range, pick_refs, positions, refs, select, to_owned, Post, PostModel,
};
use crate::text::str_eq;

verus! {

/// The first place at or after `from` in `reps` whose post has the translation key `key`,
/// or `reps.len()` if there is none.
pub open spec fn slot_from(posts: Seq<PostModel>, reps: Seq<int>, key: Seq<char>, from: int) -> int
    decreases reps.len() - from,
{
    if from >= reps.len() {
        reps.len() as int
    } else if posts[reps[from]].translation_key == key {
        from
    } else {
        slot_from(posts, reps, key, from + 1)
    }
}

/// The representatives after the post at position `i` has been seen.
///
/// A post with a new key is added at the end. A post whose group is already
/// represented replaces the representative only if it is in the preferred
/// language and the representative is not.
pub open spec fn absorb(posts: Seq<PostModel>, reps: Seq<int>, i: int, lang: Lang) -> Seq<int> {
    let j = slot_from(posts, reps, posts[i].translation_key, 0);
    if j >= reps.len() {
        reps.push(i)
    } else if posts[i].lang == lang && posts[reps[j]].lang != lang {
        reps.update(j, i)
    } else {
        reps
    }
}

/// The positions of the representatives of the first `n` posts.
pub open spec fn representatives(posts: Seq<PostModel>, lang: Lang, n: nat) -> Seq<int>
    decreases n,
{
    if n == 0 {
        Seq::<int>::empty()
    } else {
        absorb(posts, representatives(posts, lang, (n - 1) as nat), n - 1, lang)
    }
}

/// One post per translation key, chosen for the preferred language `lang`.
pub open spec fn dedup(posts: Seq<PostModel>, lang: Lang) -> Seq<PostModel> {
    select(posts, representatives(posts, lang, posts.len()))
}

/// Whether one of the representatives `reps` has the translation key `key`.
pub open spec fn has_key(posts: Seq<PostModel>, reps: Seq<int>, key: Seq<char>) -> bool {
    exists|k: int| 0 <= k < reps.len() && #[trigger] posts[reps[k]].translation_key == key
}

/// What holds of the representatives of the first `n` posts: they are among these
/// posts; no two have the same key; every key has one; a representative is in
/// the preferred language if a post of its group is; and a post of its group
/// stands before it only if it is in that language and the other is not.
pub open spec fn represents(posts: Seq<PostModel>, lang: Lang, reps: Seq<int>, n: int) -> bool {
    &&& forall|k: int| 0 <= k < reps.len() ==> 0 <= #[trigger] reps[k] < n
    &&& forall|a: int, b: int|
        0 <= a < b < reps.len() ==> posts[#[trigger] reps[a]].translation_key != posts[#[trigger] reps[b]].translation_key
    &&& forall|i: int| 0 <= i < n ==> has_key(posts, reps, (#[trigger] posts[i]).translation_key)
    &&& forall|k: int, i: int|
        0 <= k < reps.len() && 0 <= i < n && #[trigger] posts[reps[k]].translation_key
            == #[trigger] posts[i].translation_key && posts[i].lang == lang ==> posts[reps[k]].lang == lang
    &&& forall|k: int, i: int|
        0 <= k < reps.len() && 0 <= i < reps[k] && #[trigger] posts[reps[k]].translation_key
            == #[trigger] posts[i].translation_key ==> posts[i].lang != lang && posts[reps[k]].lang == lang
}

proof fn lemma_slot(posts: Seq<PostModel>, reps: Seq<int>, key: Seq<char>, from: int)
    requires
        0 <= from <= reps.len(),
    ensures
        from <= slot_from(posts, reps, key, from) <= reps.len(),
        slot_from(posts, reps, key, from) < reps.len() ==> posts[reps[slot_from(posts, reps, key, from)]].translation_key
            == key,
        forall|j: int| from <= j < slot_from(posts, reps, key, from) ==> posts[#[trigger] reps[j]].translation_key != key,
    decreases reps.len() - from,
{
    if from < reps.len() && posts[reps[from]].translation_key != key {
        lemma_slot(posts, reps, key, from + 1);
    }
}

proof fn lemma_absorb(posts: Seq<PostModel>, lang: Lang, reps: Seq<int>, i: int)
    requires
        0 <= i < posts.len(),
        represents(posts, lang, reps, i),
    ensures
        represents(posts, lang, absorb(posts, reps, i, lang), i + 1),
{
    let key = posts[i].translation_key;
    let j = slot_from(posts, reps, key, 0);
    let out = absorb(posts, reps, i, lang);
    lemma_slot(posts, reps, key, 0);
    if j >= reps.len() {
        assert(out[reps.len() as int] == i);
        assert forall|x: int| 0 <= x < i + 1 implies has_key(posts, out, (#[trigger] posts[x]).translation_key) by {
            if x < i {
                let k = choose|k: int|
                    0 <= k < reps.len() && #[trigger] posts[reps[k]].translation_key == posts[x].translation_key;
                assert(out[k] == reps[k]);
            } else {
                assert(posts[out[reps.len() as int]].translation_key == posts[x].translation_key);
            }
        }
        assert forall|k: int, x: int|
            0 <= k < out.len() && 0 <= x < i + 1 && #[trigger] posts[out[k]].translation_key
                == #[trigger] posts[x].translation_key && posts[x].lang == lang implies posts[out[k]].lang == lang by {
            if k < reps.len() {
                assert(out[k] == reps[k]);
                if x == i {
                    assert(posts[reps[k]].translation_key != key);
                }
            } else {
                if x < i {
                    let w = choose|w: int|
                        0 <= w < reps.len() && #[trigger] posts[reps[w]].translation_key
                            == posts[x].translation_key;
                    assert(posts[reps[w]].translation_key != key);
                }
            }
        }
        assert forall|a: int, b: int| 0 <= a < b < out.len() implies posts[#[trigger] out[a]].translation_key
            != posts[#[trigger] out[b]].translation_key by {
            if b < reps.len() {
                assert(out[a] == reps[a] && out[b] == reps[b]);
            } else {
                assert(out[a] == reps[a]);
                assert(posts[reps[a]].translation_key != key);
            }
        }
        assert forall|k: int, x: int|
            0 <= k < out.len() && 0 <= x < out[k] && #[trigger] posts[out[k]].translation_key
                == #[trigger] posts[x].translation_key implies posts[x].lang != lang && posts[out[k]].lang
            == lang by {
            if k < reps.len() {
                assert(out[k] == reps[k]);
            } else {
                assert(has_key(posts, reps, posts[x].translation_key));
                let w = choose|w: int|
                    0 <= w < reps.len() && #[trigger] posts[reps[w]].translation_key == posts[x].translation_key;
                assert(posts[reps[w]].translation_key != key);
            }
        }
    } else if posts[i].lang == lang && posts[reps[j]].lang != lang {
        assert forall|k: int| 0 <= k < out.len() implies posts[#[trigger] out[k]].translation_key
            == posts[reps[k]].translation_key by {
        }
        assert forall|x: int| 0 <= x < i + 1 implies has_key(posts, out, (#[trigger] posts[x]).translation_key) by {
            if x < i {
                let k = choose|k: int|
                    0 <= k < reps.len() && #[trigger] posts[reps[k]].translation_key == posts[x].translation_key;
                assert(posts[out[k]].translation_key == posts[reps[k]].translation_key);
            } else {
                assert(posts[out[j]].translation_key == posts[x].translation_key);
            }
        }
        assert forall|k: int, x: int|
            0 <= k < out.len() && 0 <= x < i + 1 && #[trigger] posts[out[k]].translation_key
                == #[trigger] posts[x].translation_key && posts[x].lang == lang implies posts[out[k]].lang == lang by {
            assert(posts[out[k]].translation_key == posts[reps[k]].translation_key);
            if k != j {
                assert(out[k] == reps[k]);
                if x == i {
                    if k < j {
                        assert(posts[reps[k]].translation_key != posts[reps[j]].translation_key);
                    } else {
                        assert(posts[reps[j]].translation_key != posts[reps[k]].translation_key);
                    }
                }
            }
        }
        assert forall|a: int, b: int| 0 <= a < b < out.len() implies posts[#[trigger] out[a]].translation_key
            != posts[#[trigger] out[b]].translation_key by {
            assert(posts[out[a]].translation_key == posts[reps[a]].translation_key);
            assert(posts[out[b]].translation_key == posts[reps[b]].translation_key);
        }
        assert forall|k: int, x: int|
            0 <= k < out.len() && 0 <= x < out[k] && #[trigger] posts[out[k]].translation_key
                == #[trigger] posts[x].translation_key implies posts[x].lang != lang && posts[out[k]].lang
            == lang by {
            if k != j {
                assert(out[k] == reps[k]);
            } else {
                assert(posts[reps[j]].translation_key == posts[x].translation_key);
            }
        }
    } else {
        assert forall|x: int| 0 <= x < i + 1 implies has_key(posts, out, (#[trigger] posts[x]).translation_key) by {
            if x == i {
                assert(posts[out[j]].translation_key == posts[x].translation_key);
            }
        }
        assert forall|k: int, x: int|
            0 <= k < out.len() && 0 <= x < i + 1 && #[trigger] posts[out[k]].translation_key
                == #[trigger] posts[x].translation_key && posts[x].lang == lang implies posts[out[k]].lang == lang by {
            if x == i {
                if k < j {
                    assert(posts[reps[k]].translation_key != posts[reps[j]].translation_key);
                } else if k > j {
                    assert(posts[reps[j]].translation_key != posts[reps[k]].translation_key);
                }
            }
        }
    }
}

/// The representatives of the first `n` posts are posts among them, one for each
/// translation key that occurs: the first post of the group that is in the
/// preferred language, or the first post of the group if none of it is.
pub proof fn lemma_representatives(posts: Seq<PostModel>, lang: Lang, n: nat)
    requires
        n <= posts.len(),
    ensures
        represents(posts, lang, representatives(posts, lang, n), n as int),
    decreases n,
{
    if n > 0 {
        lemma_representatives(posts, lang, (n - 1) as nat);
        lemma_absorb(posts, lang, representatives(posts, lang, (n - 1) as nat), n - 1);
    }
}

/// Deduplication returns exactly one post for every translation key of the input,
/// taken from the input, and that post is in the preferred language whenever some
/// post with the key is.
pub proof fn lemma_dedup_one_per_key(posts: Seq<PostModel>, lang: Lang)
    ensures
        forall|k: int| 0 <= k < dedup(posts, lang).len() ==> posts.contains(#[trigger] dedup(posts, lang)[k]),
        forall|a: int, b: int|
            0 <= a < b < dedup(posts, lang).len() ==> (#[trigger] dedup(posts, lang)[a]).translation_key != (
            #[trigger] dedup(posts, lang)[b]).translation_key,
        forall|i: int|
            0 <= i < posts.len() ==> has_key(
                posts,
                representatives(posts, lang, posts.len()),
                (#[trigger] posts[i]).translation_key,
            ),
        forall|k: int, i: int|
            0 <= k < dedup(posts, lang).len() && 0 <= i < posts.len() && (#[trigger] dedup(
                posts,
                lang,
            )[k]).translation_key == (#[trigger] posts[i]).translation_key && posts[i].lang == lang ==> dedup(
                posts,
                lang,
            )[k].lang == lang,
{
    let reps = representatives(posts, lang, posts.len());
    let out = dedup(posts, lang);
    lemma_representatives(posts, lang, posts.len());
    assert forall|k: int| 0 <= k < out.len() implies posts.contains(#[trigger] out[k]) by {
        assert(0 <= reps[k] < posts.len());
        assert(out[k] == posts[reps[k]]);
    }
    assert forall|a: int, b: int| 0 <= a < b < out.len() implies (#[trigger] out[a]).translation_key != (
    #[trigger] out[b]).translation_key by {
        assert(out[a] == posts[reps[a]] && out[b] == posts[reps[b]]);
    }
    assert forall|k: int, i: int|
        0 <= k < out.len() && 0 <= i < posts.len() && (#[trigger] out[k]).translation_key == (
        #[trigger] posts[i]).translation_key && posts[i].lang == lang implies out[k].lang == lang by {
        assert(out[k] == posts[reps[k]]);
    }
}

/// The positions of the representatives of `posts` for the preferred language `lang`.
pub fn dedup_positions(posts: &Vec<&Post>, lang: Lang) -> (reps: Vec<usize>)
    ensures
        positions(reps@) == representatives(refs(posts@), lang, posts@.len()),
        in_range(positions(reps@), posts@.len() as int),
{
    let ghost model = refs(posts@);
    let mut reps: Vec<usize> = Vec::new();
    let mut i: usize = 0;
    while i < posts.len()
        invariant
            i <= posts.len(),
            model == refs(posts@),
            positions(reps@) == representatives(model, lang, i as nat),
            in_range(positions(reps@), i as int),
        decreases posts.len() - i,
    {
        let ghost before = positions(reps@);
        let ghost key = model[i as int].translation_key;
        let mut j: usize = 0;
        while j < reps.len() && !str_eq(posts[reps[j]].translation_key.as_str(), posts[i].translation_key.as_str())
            invariant
                j <= reps.len(),
                i < posts.len(),
                model == refs(posts@),
                before == positions(reps@),
                key == model[i as int].translation_key,
                in_range(before, i as int),
                slot_from(model, before, key, 0) == slot_from(model, before, key, j as int),
            decreases reps.len() - j,
        {
            assert(0 <= before[j as int] < i);
            assert(model[before[j as int]].translation_key == posts@[reps[j as int] as int].translation_key@);
            j += 1;
        }
        proof {
            if j < reps.len() {
                assert(0 <= before[j as int] < i);
                assert(model[before[j as int]].translation_key == posts@[reps[j as int] as int].translation_key@);
            }
            assert(slot_from(model, before, key, 0) == j);
        }
        if j >= reps.len() {
            reps.push(i);
            assert(positions(reps@) =~= before.push(i as int));
        } else {
            assert(0 <= before[j as int] < i);
            if posts[i].lang.same(lang) && !posts[reps[j]].lang.same(lang) {
                reps.set(j, i);
                assert(positions(reps@) =~= before.update(j as int, i as int));
            }
        }
        assert(positions(reps@) == absorb(model, before, i as int, lang));
        assert forall|k: int| 0 <= k < reps.len() implies 0 <= #[trigger] positions(reps@)[k] < i + 1 by {
            if k < before.len() && positions(reps@)[k] == before[k] {
                assert(0 <= before[k] < i);
            }
        }
        i += 1;
    }
    reps
}

/// One borrowed post per translation key: for each key the first post in `lang`,
/// or the first post with the key if none is in `lang`.
pub fn dedup_refs_by_translation<'a>(posts: Vec<&'a Post>, lang: Lang) -> (r: Vec<&'a Post>)
    ensures
        refs(r@) == dedup(refs(posts@), lang),
{
    let reps = dedup_positions(&posts, lang);
    pick_refs(&posts, &reps)
}

/// One post per translation key: for each key the first post in `lang`, or the
/// first post with the key if none is in `lang`.
pub fn dedup_by_translation(posts: Vec<Post>, lang: Lang) -> (r: Vec<Post>)
    ensures
        catalog(r@) == dedup(catalog(posts@), lang),
{
    let all = as_refs(posts.as_slice());
    let kept = dedup_refs_by_translation(all, lang);
    to_owned(&kept)
}

} // verus!
