//! The post model: what one content file becomes once it is loaded.

use vstd::prelude::*;
use crate::lang::Lang;
use crate::text::{clone_opt, clone_strings, opt_text, str_eq, texts};

verus! {

/// The kind of a post, given by the directory it was found in.
#[derive(Clone, Copy, PartialEq, Eq, Structural, Hash, Debug)]
pub enum PostType {
    Blog,
    Review,
    Diary,
}

impl PostType {
    /// The capitalised name of the kind.
    pub open spec fn name(self) -> Seq<char> {
        match self {
            PostType::Blog => "Blog"@,
            PostType::Review => "Review"@,
            PostType::Diary => "Diary"@,
        }
    }

    /// The capitalised name of the kind, as shown to readers.
    pub fn to_string(&self) -> (s: String)
        ensures
            s@ == self.name(),
    {
        match self {
            PostType::Blog => "Blog".to_owned(),
            PostType::Review => "Review".to_owned(),
            PostType::Diary => "Diary".to_owned(),
        }
    }

    /// Whether two kinds are the same.
    pub fn same(self, other: PostType) -> (r: bool)
        ensures
            r == (self == other),
    {
        self == other
    }

    /// The kind that a lower-case directory name stands for.
    pub open spec fn of_name(name: Seq<char>) -> Option<PostType> {
        if name == "blog"@ {
            Some(PostType::Blog)
        } else if name == "review"@ {
            Some(PostType::Review)
        } else if name == "diary"@ {
            Some(PostType::Diary)
        } else {
            None
        }
    }

    /// The kind that a directory name in lower case stands for.
    pub fn from_lower_name(name: &str) -> (r: Option<PostType>)
        ensures
            r == PostType::of_name(name@),
    {
        if str_eq(name, "blog") {
            Some(PostType::Blog)
        } else if str_eq(name, "review") {
            Some(PostType::Review)
        } else if str_eq(name, "diary") {
            Some(PostType::Diary)
        } else {
            None
        }
    }

    /// The name of the kind in lower case.
    pub open spec fn lower_name(self) -> Seq<char> {
        match self {
            PostType::Blog => "blog"@,
            PostType::Review => "review"@,
            PostType::Diary => "diary"@,
        }
    }

    /// The name of the kind in lower case, as used in addresses and feeds.
    pub fn as_lower_str(self) -> (s: &'static str)
        ensures
            s@ == self.lower_name(),
    {
        match self {
            PostType::Blog => "blog",
            PostType::Review => "review",
            PostType::Diary => "diary",
        }
    }
}

/// A point in time: whole seconds since the Unix epoch and the nanoseconds within the second.
///
/// Two timestamps are ordered by seconds first and nanoseconds second.
#[derive(Clone, Copy, PartialEq, Eq, Structural, Hash, Debug)]
pub struct Timestamp {
    pub secs: i64,
    pub nanos: u32,
}

impl Timestamp {
    /// The integer by which timestamps are ordered: later instants have larger keys.
    pub open spec fn key(self) -> int {
        self.secs * 4294967296 + self.nanos
    }

    /// The ordering key as a machine integer.
    pub fn sort_key(self) -> (k: i128)
        ensures
            k == self.key(),
    {
        let s: i128 = self.secs as i128;
        let n: i128 = self.nanos as i128;
        s * 4294967296 + n
    }

    /// Whether `self` is strictly later than `other`.
    pub fn is_after(self, other: Timestamp) -> (r: bool)
        ensures
            r == (self.key() > other.key()),
    {
        self.secs > other.secs || (self.secs == other.secs && self.nanos > other.nanos)
    }
}

/// One heading of a post's table of contents.
#[derive(Debug)]
pub struct TocEntry {
    /// The heading level, 2 or 3.
    pub level: u8,
    /// The plain text of the heading.
    pub text: String,
    /// The anchor of the heading, unique within the post.
    pub id: String,
}

/// The model of a `TocEntry`.
pub ghost struct TocModel {
    pub level: u8,
    pub text: Seq<char>,
    pub id: Seq<char>,
}

impl View for TocEntry {
    type V = TocModel;

    open spec fn view(&self) -> TocModel {
        TocModel { level: self.level, text: self.text@, id: self.id@ }
    }
}

impl Clone for TocEntry {
    fn clone(&self) -> (r: TocEntry)
        ensures
            r@ == self@,
    {
        TocEntry { level: self.level, text: self.text.clone(), id: self.id.clone() }
    }
}

/// The model of a table of contents.
pub open spec fn toc_view(toc: Seq<TocEntry>) -> Seq<TocModel> {
    toc.map_values(|e: TocEntry| e@)
}

/// An owned copy of a table of contents.
pub fn clone_toc(toc: &Vec<TocEntry>) -> (r: Vec<TocEntry>)
    ensures
        toc_view(r@) == toc_view(toc@),
{
    let mut r: Vec<TocEntry> = Vec::new();
    let mut i: usize = 0;
    while i < toc.len()
        invariant
            i <= toc.len(),
            r.len() == i,
            forall|j: int| 0 <= j < i ==> r[j]@ == toc[j]@,
        decreases toc.len() - i,
    {
        r.push(toc[i].clone());
        i += 1;
    }
    assert(toc_view(r@) =~= toc_view(toc@));
    r
}

/// The front matter of a post, as its author wrote it.
#[derive(Debug)]
pub struct PostMetadata {
    pub title: String,
    pub description: String,
    pub author: String,
    pub tags: Vec<String>,
    pub created_at: Timestamp,
    pub updated_at: Timestamp,
    /// The series the post belongs to, if any.
    pub series: Option<String>,
    /// The explicit position of the post in its series.
    pub series_order: Option<i64>,
    pub series_description: Option<String>,
    pub series_status: Option<String>,
    /// The slug of the previous post of the series.
    pub prev_post: Option<String>,
    /// The slug of the next post of the series.
    pub next_post: Option<String>,
    pub og_image: Option<String>,
    /// The explicit language tag.
    pub lang: Option<String>,
    /// The explicit slug, which overrides the one derived from the file name.
    pub slug: Option<String>,
}

/// The model of a `PostMetadata`.
pub ghost struct MetadataModel {
    pub title: Seq<char>,
    pub description: Seq<char>,
    pub author: Seq<char>,
    pub tags: Seq<Seq<char>>,
    pub created_at: Timestamp,
    pub updated_at: Timestamp,
    pub series: Option<Seq<char>>,
    pub series_order: Option<i64>,
    pub series_description: Option<Seq<char>>,
    pub series_status: Option<Seq<char>>,
    pub prev_post: Option<Seq<char>>,
    pub next_post: Option<Seq<char>>,
    pub og_image: Option<Seq<char>>,
    pub lang: Option<Seq<char>>,
    pub slug: Option<Seq<char>>,
}

impl View for PostMetadata {
    type V = MetadataModel;

    open spec fn view(&self) -> MetadataModel {
        MetadataModel {
            title: self.title@,
            description: self.description@,
            author: self.author@,
            tags: texts(self.tags@),
            created_at: self.created_at,
            updated_at: self.updated_at,
            series: opt_text(self.series),
            series_order: self.series_order,
            series_description: opt_text(self.series_description),
            series_status: opt_text(self.series_status),
            prev_post: opt_text(self.prev_post),
            next_post: opt_text(self.next_post),
            og_image: opt_text(self.og_image),
            lang: opt_text(self.lang),
            slug: opt_text(self.slug),
        }
    }
}

impl Clone for PostMetadata {
    fn clone(&self) -> (r: PostMetadata)
        ensures
            r@ == self@,
    {
        PostMetadata {
            title: self.title.clone(),
            description: self.description.clone(),
            author: self.author.clone(),
            tags: clone_strings(&self.tags),
            created_at: self.created_at,
            updated_at: self.updated_at,
            series: clone_opt(&self.series),
            series_order: self.series_order,
            series_description: clone_opt(&self.series_description),
            series_status: clone_opt(&self.series_status),
            prev_post: clone_opt(&self.prev_post),
            next_post: clone_opt(&self.next_post),
            og_image: clone_opt(&self.og_image),
            lang: clone_opt(&self.lang),
            slug: clone_opt(&self.slug),
        }
    }
}

/// One published unit of content.
#[derive(Debug)]
pub struct Post {
    pub post_type: PostType,
    pub metadata: PostMetadata,
    /// The rendered HTML body.
    pub content: String,
    /// The URL slug.
    pub slug: String,
    /// The headings of levels 2 and 3, in order.
    pub toc: Vec<TocEntry>,
    /// The estimated reading time in minutes, at least 1.
    pub reading_time_min: u32,
    /// The resolved language.
    pub lang: Lang,
    /// The key shared by all language variants of the post.
    pub translation_key: String,
}

/// The model of a `Post`.
pub ghost struct PostModel {
    pub post_type: PostType,
    pub metadata: MetadataModel,
    pub content: Seq<char>,
    pub slug: Seq<char>,
    pub toc: Seq<TocModel>,
    pub reading_time_min: u32,
    pub lang: Lang,
    pub translation_key: Seq<char>,
}

impl View for Post {
    type V = PostModel;

    open spec fn view(&self) -> PostModel {
        PostModel {
            post_type: self.post_type,
            metadata: self.metadata@,
            content: self.content@,
            slug: self.slug@,
            toc: toc_view(self.toc@),
            reading_time_min: self.reading_time_min,
            lang: self.lang,
            translation_key: self.translation_key@,
        }
    }
}

impl Clone for Post {
    fn clone(&self) -> (r: Post)
        ensures
            r@ == self@,
    {
        Post {
            post_type: self.post_type,
            metadata: self.metadata.clone(),
            content: self.content.clone(),
            slug: self.slug.clone(),
            toc: clone_toc(&self.toc),
            reading_time_min: self.reading_time_min,
            lang: self.lang,
            translation_key: self.translation_key.clone(),
        }
    }
}

impl PostModel {
    /// Whether the post is as the pipeline makes it: its reading time is at least
    /// a minute, and its table of contents holds headings of the levels 2 and 3
    /// with anchors that differ from each other.
    pub open spec fn well_formed(self) -> bool {
        &&& self.reading_time_min >= 1
        &&& forall|i: int| 0 <= i < self.toc.len() ==> (#[trigger] self.toc[i]).level == 2 || self.toc[i].level == 3
        &&& forall|a: int, b: int| 0 <= a < b < self.toc.len() ==> (#[trigger] self.toc[a]).id != (#[trigger] self.toc[b]).id
    }
}

/// Whether no two posts of one language share a slug.
pub open spec fn slugs_unique(posts: Seq<PostModel>) -> bool {
    forall|a: int, b: int|
        0 <= a < b < posts.len() ==> !((#[trigger] posts[a]).lang == (#[trigger] posts[b]).lang && posts[a].slug
            == posts[b].slug)
}

/// Whether no two posts of one language share a slug.
pub fn has_unique_slugs(posts: &[Post]) -> (r: bool)
    ensures
        r == slugs_unique(catalog(posts@)),
{
    let ghost model = catalog(posts@);
    let mut b: usize = 0;
    while b < posts.len()
        invariant
            b <= posts.len(),
            model == catalog(posts@),
            forall|x: int, y: int|
                0 <= x < y < b ==> !((#[trigger] model[x]).lang == (#[trigger] model[y]).lang && model[x].slug
                    == model[y].slug),
        decreases posts.len() - b,
    {
        let mut a: usize = 0;
        while a < b
            invariant
                a <= b,
                b < posts.len(),
                model == catalog(posts@),
                forall|x: int|
                    0 <= x < a ==> !((#[trigger] model[x]).lang == model[b as int].lang && model[x].slug
                        == model[b as int].slug),
            decreases b - a,
        {
            assert(model[a as int] == posts[a as int]@ && model[b as int] == posts[b as int]@);
            if posts[a].lang.same(posts[b].lang) && str_eq(
                posts[a].slug.as_str(),
                posts[b].slug.as_str(),
            ) {
                return false;
            }
            a += 1;
        }
        b += 1;
    }
    true
}

/// The model of a list of posts.
pub open spec fn catalog(posts: Seq<Post>) -> Seq<PostModel> {
    posts.map_values(|p: Post| p@)
}

/// The posts of `posts` at the positions `order`, in that order.
pub open spec fn select(posts: Seq<PostModel>, order: Seq<int>) -> Seq<PostModel> {
    order.map_values(|i: int| posts[i])
}

/// Whether every element of `order` is a position of a sequence of length `n`.
pub open spec fn in_range(order: Seq<int>, n: int) -> bool {
    forall|k: int| 0 <= k < order.len() ==> 0 <= #[trigger] order[k] < n
}

/// The positions held by a list of machine indices.
pub open spec fn positions(order: Seq<usize>) -> Seq<int> {
    order.map_values(|i: usize| i as int)
}

/// The model of a list of borrowed posts.
pub open spec fn refs(posts: Seq<&Post>) -> Seq<PostModel> {
    posts.map_values(|p: &Post| p@)
}

/// Borrows of all posts of a list, in order.
pub fn as_refs<'a>(posts: &'a [Post]) -> (r: Vec<&'a Post>)
    ensures
        refs(r@) == catalog(posts@),
{
    let mut r: Vec<&'a Post> = Vec::new();
    let mut k: usize = 0;
    while k < posts.len()
        invariant
            k <= posts.len(),
            r.len() == k,
            forall|j: int| 0 <= j < k ==> r[j]@ == posts@[j]@,
        decreases posts.len() - k,
    {
        r.push(&posts[k]);
        k += 1;
    }
    assert(refs(r@) =~= catalog(posts@));
    r
}

/// Owned copies of borrowed posts, in order.
pub fn to_owned(posts: &Vec<&Post>) -> (r: Vec<Post>)
    ensures
        catalog(r@) == refs(posts@),
{
    let mut r: Vec<Post> = Vec::new();
    let mut k: usize = 0;
    while k < posts.len()
        invariant
            k <= posts.len(),
            r.len() == k,
            forall|j: int| 0 <= j < k ==> r[j]@ == posts@[j]@,
        decreases posts.len() - k,
    {
        r.push(posts[k].clone());
        k += 1;
    }
    assert(catalog(r@) =~= refs(posts@));
    r
}

/// The borrowed posts at the positions `order`, in that order.
pub fn pick_refs<'a>(posts: &Vec<&'a Post>, order: &Vec<usize>) -> (r: Vec<&'a Post>)
    requires
        in_range(positions(order@), posts@.len() as int),
    ensures
        refs(r@) == select(refs(posts@), positions(order@)),
{
    let mut r: Vec<&'a Post> = Vec::new();
    let mut k: usize = 0;
    while k < order.len()
        invariant
            k <= order.len(),
            r.len() == k,
            in_range(positions(order@), posts@.len() as int),
            forall|j: int| 0 <= j < k ==> r[j]@ == posts@[order[j] as int]@,
        decreases order.len() - k,
    {
        assert(0 <= positions(order@)[k as int] < posts@.len());
        r.push(posts[order[k]]);
        k += 1;
    }
    assert(refs(r@) =~= select(refs(posts@), positions(order@)));
    r
}

} // verus!
