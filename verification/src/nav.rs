//! Where a post stands in its series.

use vstd::prelude::*;
use crate::lang::Lang;
use crate::post::{catalog, Post, PostModel};
use crate::series::{comes_before, in_same_chain, same_chain, series_sort_key};
use crate::text::{clone_opt, opt_text, str_eq};

verus! {

/// Where a post stands in its series, and where its links lead.
#[derive(Debug)]
pub struct SeriesNavInfo {
    pub series_name: String,
    /// The position of the post in its chain, counted from 1.
    pub position: usize,
    /// The number of posts in the chain.
    pub total: usize,
    pub prev_slug: Option<String>,
    pub prev_title: Option<String>,
    pub next_slug: Option<String>,
    pub next_title: Option<String>,
}

/// The model of a `SeriesNavInfo`.
pub ghost struct NavModel {
    pub series_name: Seq<char>,
    pub position: nat,
    pub total: nat,
    pub prev_slug: Option<Seq<char>>,
    pub prev_title: Option<Seq<char>>,
    pub next_slug: Option<Seq<char>>,
    pub next_title: Option<Seq<char>>,
}

impl View for SeriesNavInfo {
    type V = NavModel;

    open spec fn view(&self) -> NavModel {
        NavModel {
            series_name: self.series_name@,
            position: self.position as nat,
            total: self.total as nat,
            prev_slug: opt_text(self.prev_slug),
            prev_title: opt_text(self.prev_title),
            next_slug: opt_text(self.next_slug),
            next_title: opt_text(self.next_title),
        }
    }
}

/// Whether a post has the slug `slug` and, if a language is asked for, that language.
pub open spec fn answers_to(p: PostModel, slug: Seq<char>, lang: Option<Lang>) -> bool {
    p.slug == slug && (lang matches Some(l) ==> p.lang == l)
}

/// The first position at or after `from` of a post that answers to `slug` and `lang`,
/// or `posts.len()` if there is none.
pub open spec fn first_answering(posts: Seq<PostModel>, slug: Seq<char>, lang: Option<Lang>, from: int) -> int
    decreases posts.len() - from,
{
    if from >= posts.len() {
        posts.len() as int
    } else if answers_to(posts[from], slug, lang) {
        from
    } else {
        first_answering(posts, slug, lang, from + 1)
    }
}

/// The position of the post that the slug `slug` leads a reader of the language
/// `lang` to: the first post with that slug in that language, or else the first
/// post with that slug; `posts.len()` if no post has the slug.
pub open spec fn shown_for(posts: Seq<PostModel>, slug: Seq<char>, lang: Lang) -> int {
    let exact = first_answering(posts, slug, Some(lang), 0);
    if exact < posts.len() {
        exact
    } else {
        first_answering(posts, slug, None, 0)
    }
}

/// The title of the post that a link to `slug` leads to, if it leads to one.
pub open spec fn link_title(posts: Seq<PostModel>, slug: Seq<char>, lang: Lang) -> Option<Seq<char>> {
    let at = shown_for(posts, slug, lang);
    if at < posts.len() {
        Some(posts[at].metadata.title)
    } else {
        None
    }
}

/// The number of posts among the first `n` that belong to the chain of the post at `i`
/// and, if `only_before`, stand before it.
pub open spec fn chain_count(posts: Seq<PostModel>, i: int, only_before: bool, n: nat) -> nat
    decreases n,
{
    if n == 0 {
        0
    } else {
        let rest = chain_count(posts, i, only_before, (n - 1) as nat);
        if same_chain(posts, i, n - 1) && (only_before ==> comes_before(posts, n - 1, i)) {
            rest + 1
        } else {
            rest
        }
    }
}

/// The title behind an optional link.
pub open spec fn opt_link_title(posts: Seq<PostModel>, link: Option<Seq<char>>, lang: Lang) -> Option<Seq<char>> {
    match link {
        Some(slug) => link_title(posts, slug, lang),
        None => None,
    }
}

/// The navigation of `post` within its series, if it belongs to one and is in the catalog.
///
/// The post is looked up by its slug and language. Its position is counted in
/// chain order; the links are those of its metadata.
pub open spec fn nav_info(posts: Seq<PostModel>, post: PostModel) -> Option<NavModel> {
    let i = first_answering(posts, post.slug, Some(post.lang), 0);
    if i >= posts.len() {
        None
    } else {
        match posts[i].metadata.series {
            None => None,
            Some(name) => Some(
                NavModel {
                    series_name: name,
                    position: chain_count(posts, i, true, posts.len()) + 1,
                    total: chain_count(posts, i, false, posts.len()),
                    prev_slug: posts[i].metadata.prev_post,
                    prev_title: opt_link_title(posts, posts[i].metadata.prev_post, post.lang),
                    next_slug: posts[i].metadata.next_post,
                    next_title: opt_link_title(posts, posts[i].metadata.next_post, post.lang),
                },
            ),
        }
    }
}

/// The first position of a post with the slug `slug` and, if given, the language `lang`.
pub fn find_post(posts: &[Post], slug: &str, lang: Option<Lang>) -> (r: Option<usize>)
    ensures
        r matches Some(i) ==> i < posts.len() && i == first_answering(catalog(posts@), slug@, lang, 0),
        r is None ==> first_answering(catalog(posts@), slug@, lang, 0) == posts.len(),
{
    let ghost model = catalog(posts@);
    let mut i: usize = 0;
    while i < posts.len()
        invariant
            i <= posts.len(),
            model == catalog(posts@),
            first_answering(model, slug@, lang, 0) == first_answering(model, slug@, lang, i as int),
        decreases posts.len() - i,
    {
        let fits = str_eq(posts[i].slug.as_str(), slug) && match lang {
            Some(l) => posts[i].lang.same(l),
            None => true,
        };
        assert(fits == answers_to(model[i as int], slug@, lang));
        if fits {
            return Some(i);
        }
        i += 1;
    }
    None
}

/// The position of the post that a slug leads a reader of the language `lang` to:
/// the first post with the slug in that language, or else the first post with
/// the slug.
pub fn find_for_reader(posts: &[Post], slug: &str, lang: Lang) -> (r: Option<usize>)
    ensures
        match r {
            Some(i) => i < posts.len() && i == shown_for(catalog(posts@), slug@, lang),
            None => shown_for(catalog(posts@), slug@, lang) == posts.len(),
        },
{
    match find_post(posts, slug, Some(lang)) {
        Some(i) => Some(i),
        None => find_post(posts, slug, None),
    }
}

/// The title of the post that a link leads to.
fn title_behind(posts: &[Post], link: &Option<String>, lang: Lang) -> (r: Option<String>)
    ensures
        opt_text(r) == opt_link_title(catalog(posts@), opt_text(*link), lang),
{
    match link {
        None => None,
        Some(slug) => match find_for_reader(posts, slug.as_str(), lang) {
            Some(i) => Some(posts[i].metadata.title.clone()),
            None => None,
        },
    }
}

/// The navigation of `post` within its series: `None` if the post is not in the
/// catalog or belongs to no series.
pub fn get_series_nav_info(posts: &[Post], post: &Post) -> (r: Option<SeriesNavInfo>)
    ensures
        (match r {
            Some(info) => Some(info@),
            None => None,
        }) == nav_info(catalog(posts@), post@),
{
    let ghost model = catalog(posts@);
    let i = match find_post(posts, post.slug.as_str(), Some(post.lang)) {
        Some(i) => i,
        None => {
            return None;
        },
    };
    let name = match &posts[i].metadata.series {
        Some(name) => name.clone(),
        None => {
            return None;
        },
    };
    let mut before: usize = 0;
    let mut total: usize = 0;
    let mut k: usize = 0;
    while k < posts.len()
        invariant
            k <= posts.len(),
            i < posts.len(),
            model == catalog(posts@),
            before == chain_count(model, i as int, true, k as nat),
            total == chain_count(model, i as int, false, k as nat),
            before <= k,
            total <= k,
        decreases posts.len() - k,
    {
        if in_same_chain(posts, i, k) {
            total += 1;
            let kk = series_sort_key(&posts[k]);
            let key = series_sort_key(&posts[i]);
            if kk < key || (kk == key && k < i) {
                before += 1;
            }
        }
        k += 1;
    }
    assert(before < posts.len()) by {
        lemma_self_not_before(model, i as int, posts.len() as nat);
    }
    Some(
        SeriesNavInfo {
            series_name: name,
            position: before + 1,
            total,
            prev_slug: clone_opt(&posts[i].metadata.prev_post),
            prev_title: title_behind(posts, &posts[i].metadata.prev_post, post.lang),
            next_slug: clone_opt(&posts[i].metadata.next_post),
            next_title: title_behind(posts, &posts[i].metadata.next_post, post.lang),
        },
    )
}

/// A post does not stand before itself, so fewer than all posts stand before it.
proof fn lemma_self_not_before(posts: Seq<PostModel>, i: int, n: nat)
    requires
        0 <= i < posts.len(),
    ensures
        chain_count(posts, i, true, n) <= n,
        i < n ==> chain_count(posts, i, true, n) < n,
    decreases n,
{
    if n > 0 {
        lemma_self_not_before(posts, i, (n - 1) as nat);
    }
}

} // verus!
