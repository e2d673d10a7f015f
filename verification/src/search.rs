//! Searching the catalog, and listing the tags of a kind of post.

use vstd::prelude::*;
use crate::lang::Lang;
use crate::post::{catalog, refs, Post, PostModel, PostType, Timestamp};
use crate::query::{by_created, sort_by_created};
use crate::scan::{contains_sub, find_from};
use crate::text::{chars_of, clone_strings, contains_text, lowercase_of, texts, to_lowercase};
use crate::dedup::{dedup, dedup_refs_by_translation};

verus! {

/// The number of results that a search gives at most.
pub const SEARCH_LIMIT: usize = 20;

/// One result of a search.
#[derive(Debug)]
pub struct SearchResult {
    pub slug: String,
    pub title: String,
    pub description: String,
    /// The kind of the post, in lower case.
    pub post_type: String,
    pub tags: Vec<String>,
    pub created_at: Timestamp,
    pub reading_time_min: u32,
    /// The two-letter code of the post's language.
    pub lang: String,
}

/// The model of a `SearchResult`.
pub ghost struct ResultModel {
    pub slug: Seq<char>,
    pub title: Seq<char>,
    pub description: Seq<char>,
    pub post_type: Seq<char>,
    pub tags: Seq<Seq<char>>,
    pub created_at: Timestamp,
    pub reading_time_min: u32,
    pub lang: Seq<char>,
}

impl View for SearchResult {
    type V = ResultModel;

    open spec fn view(&self) -> ResultModel {
        ResultModel {
            slug: self.slug@,
            title: self.title@,
            description: self.description@,
            post_type: self.post_type@,
            tags: texts(self.tags@),
            created_at: self.created_at,
            reading_time_min: self.reading_time_min,
            lang: self.lang@,
        }
    }
}

/// The model of a list of results.
pub open spec fn results_view(results: Seq<SearchResult>) -> Seq<ResultModel> {
    results.map_values(|r: SearchResult| r@)
}

/// Whether one of the tags, in lower case, holds the text `q`.
pub open spec fn tag_holds(tags: Seq<Seq<char>>, q: Seq<char>) -> bool {
    exists|i: int| 0 <= i < tags.len() && contains_sub(lowercase_of(#[trigger] tags[i]), q)
}

/// Whether the title, the description or a tag of a post, in lower case, holds the text `q`.
pub open spec fn answers(p: PostModel, q: Seq<char>) -> bool {
    contains_sub(lowercase_of(p.metadata.title), q) || contains_sub(lowercase_of(p.metadata.description), q)
        || tag_holds(p.metadata.tags, q)
}

/// `answers` as a predicate on posts.
pub open spec fn answer_filter(q: Seq<char>) -> spec_fn(PostModel) -> bool {
    |p: PostModel| answers(p, q)
}

/// What a search shows of a post.
pub open spec fn result_of(p: PostModel) -> ResultModel {
    ResultModel {
        slug: p.slug,
        title: p.metadata.title,
        description: p.metadata.description,
        post_type: p.post_type.lower_name(),
        tags: p.metadata.tags,
        created_at: p.metadata.created_at,
        reading_time_min: p.reading_time_min,
        lang: p.lang.tag(),
    }
}

/// The posts that a search for `query` finds: those that answer to the query in
/// lower case, one per translation key, newest first, at most `SEARCH_LIMIT`.
pub open spec fn found(posts: Seq<PostModel>, query: Seq<char>, lang: Lang) -> Seq<PostModel> {
    let all = by_created(dedup(posts.filter(answer_filter(lowercase_of(query))), lang), false);
    if all.len() <= SEARCH_LIMIT {
        all
    } else {
        all.take(SEARCH_LIMIT as int)
    }
}

/// Whether the text, in lower case, holds the text `q`.
fn holds(text: &str, q: &Vec<char>) -> (r: bool)
    ensures
        r == contains_sub(lowercase_of(text@), q@),
{
    let lower = to_lowercase(text);
    let chars = chars_of(lower.as_str());
    find_from(&chars, q, 0).is_some()
}

/// Whether the title, the description or a tag of a post, in lower case, holds the text `q`.
pub fn post_answers(p: &Post, q: &Vec<char>) -> (r: bool)
    ensures
        r == answers(p@, q@),
{
    if holds(p.metadata.title.as_str(), q) || holds(p.metadata.description.as_str(), q) {
        return true;
    }
    let ghost tags = texts(p.metadata.tags@);
    let mut i: usize = 0;
    while i < p.metadata.tags.len()
        invariant
            i <= p.metadata.tags.len(),
            tags == texts(p.metadata.tags@),
            forall|j: int| 0 <= j < i ==> !contains_sub(lowercase_of(#[trigger] tags[j]), q@),
        decreases p.metadata.tags.len() - i,
    {
        assert(tags[i as int] == p.metadata.tags[i as int]@);
        if holds(p.metadata.tags[i].as_str(), q) {
            return true;
        }
        i += 1;
    }
    false
}

/// What a search shows of a post.
pub fn to_result(p: &Post) -> (r: SearchResult)
    ensures
        r@ == result_of(p@),
{
    SearchResult {
        slug: p.slug.clone(),
        title: p.metadata.title.clone(),
        description: p.metadata.description.clone(),
        post_type: p.post_type.as_lower_str().to_owned(),
        tags: clone_strings(&p.metadata.tags),
        created_at: p.metadata.created_at,
        reading_time_min: p.reading_time_min,
        lang: p.lang.as_str().to_owned(),
    }
}

/// Searches the titles, descriptions and tags of the posts for `query`, without
/// regard to letter case: one result per translation key, preferring `lang`,
/// newest first, at most twenty.
pub fn search_posts(posts: &[Post], query: &str, lang: Lang) -> (r: Vec<SearchResult>)
    ensures
        results_view(r@) == found(catalog(posts@), query@, lang).map_values(|p: PostModel| result_of(p)),
        r.len() <= SEARCH_LIMIT,
{
    let lower = to_lowercase(query);
    let q = chars_of(lower.as_str());
    let ghost pred = answer_filter(lowercase_of(query@));
    let ghost model = catalog(posts@);
    let mut kept: Vec<&Post> = Vec::new();
    let mut i: usize = 0;
    while i < posts.len()
        invariant
            i <= posts.len(),
            model == catalog(posts@),
            q@ == lowercase_of(query@),
            pred == answer_filter(lowercase_of(query@)),
            refs(kept@) == model.take(i as int).filter(pred),
        decreases posts.len() - i,
    {
        let p = &posts[i];
        let wanted = post_answers(p, &q);
        proof {
            reveal(Seq::filter);
            assert(model.take(i + 1).drop_last() =~= model.take(i as int));
            assert(model.take(i + 1).last() == p@);
            assert(wanted == pred(p@));
        }
        let ghost before = refs(kept@);
        if wanted {
            kept.push(p);
            assert(refs(kept@) =~= before.push(p@));
        }
        i += 1;
    }
    assert(model.take(posts@.len() as int) =~= model);
    let unique = dedup_refs_by_translation(kept, lang);
    let mut sorted = sort_by_created(&unique, false);
    if sorted.len() > SEARCH_LIMIT {
        let ghost all = refs(sorted@);
        sorted.truncate(SEARCH_LIMIT);
        assert(refs(sorted@) =~= all.take(SEARCH_LIMIT as int));
    }
    let ghost hits = refs(sorted@);
    let mut r: Vec<SearchResult> = Vec::new();
    let mut k: usize = 0;
    while k < sorted.len()
        invariant
            k <= sorted.len(),
            r.len() == k,
            hits == refs(sorted@),
            forall|j: int| 0 <= j < k ==> (#[trigger] r[j])@ == result_of(hits[j]),
        decreases sorted.len() - k,
    {
        assert(hits[k as int] == sorted[k as int]@);
        r.push(to_result(sorted[k]));
        k += 1;
    }
    assert(results_view(r@) =~= hits.map_values(|p: PostModel| result_of(p)));
    r
}

/// Whether a tag is carried by one of the first `n` posts that are of the kind `kind`.
pub open spec fn tag_in_use(posts: Seq<PostModel>, kind: PostType, tag: Seq<char>, n: int) -> bool {
    exists|i: int| 0 <= i < n && (#[trigger] posts[i]).post_type == kind && posts[i].metadata.tags.contains(tag)
}

/// The tags of the posts of the kind `post_type`: each once.
pub fn category_tags(posts: &[Post], post_type: PostType) -> (r: Vec<String>)
    ensures
        forall|a: int, b: int| 0 <= a < b < r.len() ==> (#[trigger] r[a])@ != (#[trigger] r[b])@,
        forall|tag: Seq<char>|
            texts(r@).contains(tag) <==> tag_in_use(catalog(posts@), post_type, tag, posts@.len() as int),
{
    let ghost model = catalog(posts@);
    let mut r: Vec<String> = Vec::new();
    let mut i: usize = 0;
    while i < posts.len()
        invariant
            i <= posts.len(),
            model == catalog(posts@),
            forall|a: int, b: int| 0 <= a < b < r.len() ==> (#[trigger] r[a])@ != (#[trigger] r[b])@,
            forall|tag: Seq<char>| texts(r@).contains(tag) <==> tag_in_use(model, post_type, tag, i as int),
        decreases posts.len() - i,
    {
        if posts[i].post_type.same(post_type) {
            let tags = &posts[i].metadata.tags;
            let ghost these = texts(tags@);
            assert(these == model[i as int].metadata.tags);
            let mut j: usize = 0;
            while j < tags.len()
                invariant
                    j <= tags.len(),
                    i < posts.len(),
                    model == catalog(posts@),
                    these == texts(tags@),
                    these == model[i as int].metadata.tags,
                    model[i as int].post_type == post_type,
                    forall|a: int, b: int| 0 <= a < b < r.len() ==> (#[trigger] r[a])@ != (#[trigger] r[b])@,
                    forall|tag: Seq<char>|
                        texts(r@).contains(tag) <==> (tag_in_use(model, post_type, tag, i as int)
                            || these.take(j as int).contains(tag)),
                decreases tags.len() - j,
            {
                let ghost before = texts(r@);
                let ghost tag = these[j as int];
                assert(tag == tags[j as int]@);
                proof {
                    let longer = these.take(j + 1);
                    let shorter = these.take(j as int);
                    assert forall|t: Seq<char>| longer.contains(t) <==> (shorter.contains(t) || t == tag) by {
                        if longer.contains(t) {
                            let w = choose|w: int| 0 <= w < longer.len() && longer[w] == t;
                            if w < j {
                                assert(shorter[w] == t);
                            }
                        }
                        if shorter.contains(t) {
                            let w = choose|w: int| 0 <= w < shorter.len() && shorter[w] == t;
                            assert(longer[w] == t);
                        }
                        if t == tag {
                            assert(longer[j as int] == t);
                        }
                    }
                }
                if !contains_text(&r, tags[j].as_str()) {
                    r.push(tags[j].clone());
                    let ghost after = texts(r@);
                    assert(after =~= before.push(tag));
                    assert forall|t: Seq<char>| after.contains(t) <==> (before.contains(t) || t == tag) by {
                        if after.contains(t) {
                            let w = choose|w: int| 0 <= w < after.len() && after[w] == t;
                            if w < before.len() {
                                assert(before[w] == t);
                            }
                        }
                        if before.contains(t) {
                            let w = choose|w: int| 0 <= w < before.len() && before[w] == t;
                            assert(after[w] == t);
                        }
                        if t == tag {
                            assert(after[before.len() as int] == t);
                        }
                    }
                    assert forall|a: int, b: int| 0 <= a < b < r.len() implies (#[trigger] r[a])@ != (
                    #[trigger] r[b])@ by {
                        if b == r.len() - 1 {
                            assert(before[a] == r[a]@);
                            assert(before.contains(r[a]@));
                        }
                    }
                }
                j += 1;
            }
            proof {
                assert(these.take(tags.len() as int) =~= these);
                assert forall|tag: Seq<char>| tag_in_use(model, post_type, tag, i + 1) <==> (tag_in_use(
                    model,
                    post_type,
                    tag,
                    i as int,
                ) || these.contains(tag)) by {
                    if tag_in_use(model, post_type, tag, i + 1) {
                        let w = choose|w: int|
                            0 <= w < i + 1 && (#[trigger] model[w]).post_type == post_type
                                && model[w].metadata.tags.contains(tag);
                        if w < i {
                            assert(tag_in_use(model, post_type, tag, i as int));
                        }
                    }
                    if these.contains(tag) {
                        assert(model[i as int].post_type == post_type && model[i as int].metadata.tags.contains(
                            tag,
                        ));
                    }
                    if tag_in_use(model, post_type, tag, i as int) {
                        let w = choose|w: int|
                            0 <= w < i && (#[trigger] model[w]).post_type == post_type
                                && model[w].metadata.tags.contains(tag);
                        assert(0 <= w < i + 1);
                    }
                }
            }
        } else {
            proof {
                assert forall|tag: Seq<char>| tag_in_use(model, post_type, tag, i + 1) <==> tag_in_use(
                    model,
                    post_type,
                    tag,
                    i as int,
                ) by {
                    if tag_in_use(model, post_type, tag, i + 1) {
                        let w = choose|w: int|
                            0 <= w < i + 1 && (#[trigger] model[w]).post_type == post_type
                                && model[w].metadata.tags.contains(tag);
                        assert(w < i);
                    }
                    if tag_in_use(model, post_type, tag, i as int) {
                        let w = choose|w: int|
                            0 <= w < i && (#[trigger] model[w]).post_type == post_type
                                && model[w].metadata.tags.contains(tag);
                        assert(0 <= w < i + 1);
                    }
                }
            }
        }
        i += 1;
    }
    r
}

} // verus!
