//! Loading the catalog: one post per content file, found by walking the content
//! directory.
//!
//! The walk is a work list. The loader says which directory to list or which
//! file to read next; its caller does so and hands back what it found. A
//! directory named after a kind of post holds the content files of that kind;
//! any other directory is searched for such directories. The entries of a
//! directory are taken in dictionary order of their names, so that the catalog
//! does not depend on the order in which the file system lists them. The first
//! file that cannot be read as a post ends the load.

use vstd::prelude::*;
use crate::front_matter::{
    front_matter_of, metadata_of, read_metadata, split_front_matter, ParseError, ParseErrorModel,
};
use crate::anchor::anchors;
use crate::post::{catalog, positions, toc_view, Post, PostModel, PostType};
use crate::render::{page_html, page_minutes, page_toc, render_markdown};
use crate::resolve::{
    content_stem, content_stem_of, get_post_type, resolve_language, resolve_slug, resolved, slug_for,
};
use crate::series::{link_series, linked_catalog};
use crate::sort::{is_arrangement, lemma_insert_at, lemma_stable_order_by, stable_order_by};
use crate::text::{
    compare_text, lemma_text_lt_total, lemma_text_lt_transitive, lowercase_of, push_char, text_lt, TextOrder,
};

verus! {

/// The post that a content file holds, or why it holds none.
///
/// `stem` is the file's name without its extension, `raw` the text of the file.
pub open spec fn post_of(stem: Seq<char>, post_type: PostType, raw: Seq<char>) -> Result<
    PostModel,
    ParseErrorModel,
> {
    let (header, body) = front_matter_of(raw);
    match header {
        None => Err(ParseErrorModel::MissingFrontMatter),
        Some(h) => match metadata_of(h) {
            Err(e) => Err(e),
            Ok(metadata) => {
                let (key, lang) = resolved(stem, metadata.lang);
                Ok(
                    PostModel {
                        post_type,
                        metadata,
                        content: page_html(body),
                        slug: slug_for(metadata.slug, key),
                        toc: page_toc(body),
                        reading_time_min: page_minutes(body) as u32,
                        lang,
                        translation_key: key,
                    },
                )
            },
        },
    }
}

/// Builds the post of one content file.
///
/// Fails with `MissingFrontMatter` if the file has no front matter, and with
/// `MetadataParseError` if a field of it is absent or malformed.
pub fn build_post(stem: &str, post_type: PostType, raw: &str) -> (r: Result<Post, ParseError>)
    ensures
        match r {
            Ok(post) => post_of(stem@, post_type, raw@) == Ok::<PostModel, ParseErrorModel>(post@)
                && post@.well_formed(),
            Err(e) => post_of(stem@, post_type, raw@) == Err::<PostModel, ParseErrorModel>(e@),
        },
{
    let (header, body) = split_front_matter(raw);
    let header = match header {
        Some(h) => h,
        None => {
            return Err(ParseError::MissingFrontMatter);
        },
    };
    let metadata = match read_metadata(&header) {
        Ok(m) => m,
        Err(e) => {
            return Err(e);
        },
    };
    let (translation_key, lang) = resolve_language(stem, &metadata.lang);
    let slug = resolve_slug(&metadata.slug, translation_key.as_str());
    let page = render_markdown(body.as_str());
    proof {
        let toc = toc_view(page.toc@);
        assert forall|a: int, b: int| 0 <= a < b < toc.len() implies (#[trigger] toc[a]).id != (#[trigger] toc[b]).id by {
            assert(anchors(toc)[a] == toc[a].id);
            assert(anchors(toc)[b] == toc[b].id);
        }
    }
    Ok(
        Post {
            post_type,
            metadata,
            content: page.html,
            slug,
            toc: page.toc,
            reading_time_min: page.reading_time_min,
            lang,
            translation_key,
        },
    )
}

/// One entry of a directory listing.
#[derive(Debug)]
pub struct DirEntry {
    pub name: String,
    pub is_dir: bool,
}

/// The model of a `DirEntry`.
pub ghost struct EntryModel {
    pub name: Seq<char>,
    pub is_dir: bool,
}

impl View for DirEntry {
    type V = EntryModel;

    open spec fn view(&self) -> EntryModel {
        EntryModel { name: self.name@, is_dir: self.is_dir }
    }
}

/// The model of a directory listing.
pub open spec fn listing(entries: Seq<DirEntry>) -> Seq<EntryModel> {
    entries.map_values(|e: DirEntry| e@)
}

/// A piece of work of the load.
#[derive(Debug)]
pub enum Task {
    /// List the directory at `path`; `category` is the kind of its posts, if its
    /// name is that of a kind.
    List { path: String, category: Option<PostType> },
    /// Read the content file at `path`, whose name without extension is `stem`.
    Read { path: String, stem: String, post_type: PostType },
}

/// The model of a `Task`.
pub ghost enum TaskModel {
    List { path: Seq<char>, category: Option<PostType> },
    Read { path: Seq<char>, stem: Seq<char>, post_type: PostType },
}

impl View for Task {
    type V = TaskModel;

    open spec fn view(&self) -> TaskModel {
        match self {
            Task::List { path, category } => TaskModel::List { path: path@, category: *category },
            Task::Read { path, stem, post_type } => TaskModel::Read {
                path: path@,
                stem: stem@,
                post_type: *post_type,
            },
        }
    }
}

/// The model of a list of tasks.
pub open spec fn tasks_view(tasks: Seq<Task>) -> Seq<TaskModel> {
    tasks.map_values(|t: Task| t@)
}

/// Why the catalog could not be loaded.
#[derive(Debug)]
pub enum LoadError {
    /// A directory or file could not be read.
    IoError { path: String },
    /// A content file does not hold a post.
    ContentError { path: String, cause: ParseError },
}

/// The model of a `LoadError`.
pub ghost enum LoadErrorModel {
    IoError { path: Seq<char> },
    ContentError { path: Seq<char>, cause: ParseErrorModel },
}

impl View for LoadError {
    type V = LoadErrorModel;

    open spec fn view(&self) -> LoadErrorModel {
        match self {
            LoadError::IoError { path } => LoadErrorModel::IoError { path: path@ },
            LoadError::ContentError { path, cause } => LoadErrorModel::ContentError { path: path@, cause: cause@ },
        }
    }
}

/// The path of an entry of the directory at `dir`.
pub open spec fn joined(dir: Seq<char>, name: Seq<char>) -> Seq<char> {
    dir + seq!['/'] + name
}

/// The work that an entry of a directory gives rise to, if any.
///
/// In a directory without a kind, every subdirectory is listed. In a directory
/// with a kind, every content file is read.
pub open spec fn task_for(dir: Seq<char>, category: Option<PostType>, entry: EntryModel) -> Option<TaskModel> {
    match category {
        None => if entry.is_dir {
            Some(
                TaskModel::List {
                    path: joined(dir, entry.name),
                    category: PostType::of_name(lowercase_of(entry.name)),
                },
            )
        } else {
            None
        },
        Some(post_type) => if entry.is_dir {
            None
        } else {
            match content_stem_of(entry.name) {
                Some(stem) => Some(TaskModel::Read { path: joined(dir, entry.name), stem, post_type }),
                None => None,
            }
        },
    }
}

/// The comparison of the entries of a listing by their names, in dictionary order.
pub open spec fn name_le(entries: Seq<EntryModel>) -> spec_fn(int, int) -> bool {
    |a: int, b: int| !text_lt(entries[b].name, entries[a].name)
}

/// The entries of a listing in dictionary order of their names, entries of the same
/// name in the order of the listing.
pub open spec fn sorted_listing(entries: Seq<EntryModel>) -> Seq<EntryModel> {
    stable_order_by(name_le(entries), entries.len()).map_values(|i: int| entries[i])
}

/// The sorted listing holds each entry of the listing once, and no entry's name
/// comes before the name of an entry that precedes it.
pub proof fn lemma_sorted_listing(entries: Seq<EntryModel>)
    ensures
        is_arrangement(stable_order_by(name_le(entries), entries.len()), entries.len()),
        forall|x: int, y: int|
            0 <= x < y < entries.len() ==> !text_lt(
                (#[trigger] sorted_listing(entries)[y]).name,
                (#[trigger] sorted_listing(entries)[x]).name,
            ),
{
    let le = name_le(entries);
    let n = entries.len();
    assert forall|a: int, b: int| 0 <= a < n && 0 <= b < n implies #[trigger] le(a, b) || le(b, a) by {
        lemma_text_lt_total(entries[a].name, entries[b].name);
    }
    assert forall|a: int, b: int, c: int|
        0 <= a < n && 0 <= b < n && 0 <= c < n && #[trigger] le(a, b) && #[trigger] le(b, c) implies le(a, c) by {
        if text_lt(entries[c].name, entries[a].name) {
            lemma_text_lt_total(entries[c].name, entries[b].name);
            if text_lt(entries[b].name, entries[c].name) {
                lemma_text_lt_transitive(entries[b].name, entries[c].name, entries[a].name);
            }
        }
    }
    lemma_stable_order_by(le, n);
    let order = stable_order_by(le, n);
    assert forall|x: int, y: int| 0 <= x < y < n implies !text_lt(
        (#[trigger] sorted_listing(entries)[y]).name,
        (#[trigger] sorted_listing(entries)[x]).name,
    ) by {
        assert(le(order[x], order[y]));
    }
}

/// The work list after a directory has been listed: the work of its entries is
/// put on top, the first entry's topmost.
pub open spec fn with_entries(
    pending: Seq<TaskModel>,
    dir: Seq<char>,
    category: Option<PostType>,
    entries: Seq<EntryModel>,
) -> Seq<TaskModel>
    decreases entries.len(),
{
    if entries.len() == 0 {
        pending
    } else {
        let rest = with_entries(pending, dir, category, entries.drop_first());
        match task_for(dir, category, entries[0]) {
            Some(task) => rest.push(task),
            None => rest,
        }
    }
}

/// The state of a load: the work still to do, the topmost last, and the posts so far.
#[derive(Debug)]
pub struct Loader {
    pub pending: Vec<Task>,
    pub posts: Vec<Post>,
}

/// The path of an entry of a directory.
fn join_path(dir: &str, name: &str) -> (r: String)
    ensures
        r@ == joined(dir@, name@),
{
    let mut r = dir.to_owned();
    push_char(&mut r, '/');
    r.append(name);
    r
}

/// The work that an entry of a directory gives rise to, if any.
fn task_of(dir: &str, category: Option<PostType>, entry: &DirEntry) -> (r: Option<Task>)
    ensures
        match r {
            Some(task) => task_for(dir@, category, entry@) == Some(task@),
            None => task_for(dir@, category, entry@) is None,
        },
{
    match category {
        None => if entry.is_dir {
            Some(
                Task::List {
                    path: join_path(dir, entry.name.as_str()),
                    category: get_post_type(entry.name.as_str()),
                },
            )
        } else {
            None
        },
        Some(post_type) => if entry.is_dir {
            None
        } else {
            match content_stem(entry.name.as_str()) {
                Some(stem) => Some(Task::Read { path: join_path(dir, entry.name.as_str()), stem, post_type }),
                None => None,
            }
        },
    }
}

/// The positions of the entries of a listing in dictionary order of their names.
pub fn order_by_name(entries: &Vec<DirEntry>) -> (order: Vec<usize>)
    ensures
        positions(order@) == stable_order_by(name_le(listing(entries@)), entries@.len()),
        order.len() == entries.len(),
        forall|k: int| 0 <= k < order.len() ==> 0 <= #[trigger] order[k] < entries.len(),
{
    let ghost all = listing(entries@);
    let ghost le = name_le(all);
    let mut order: Vec<usize> = Vec::new();
    let mut i: usize = 0;
    while i < entries.len()
        invariant
            i <= entries.len(),
            all == listing(entries@),
            le == name_le(all),
            positions(order@) == stable_order_by(le, i as nat),
            order.len() == i,
            forall|k: int| 0 <= k < order.len() ==> 0 <= #[trigger] order[k] < i,
        decreases entries.len() - i,
    {
        let ghost before = positions(order@);
        let mut p: usize = order.len();
        while p > 0 && compare_text(entries[i].name.as_str(), entries[order[p - 1]].name.as_str())
            == TextOrder::Before
            invariant
                p <= order.len(),
                order.len() == i,
                i < entries.len(),
                all == listing(entries@),
                le == name_le(all),
                before == positions(order@),
                forall|k: int| 0 <= k < order.len() ==> 0 <= #[trigger] order[k] < i,
                forall|j: int| p <= j < order.len() ==> !le(#[trigger] before[j], i as int),
            decreases p,
        {
            assert(before[p - 1] == order[p - 1] as int);
            assert(all[before[p - 1]].name == entries[order[p - 1] as int].name@);
            assert(all[i as int].name == entries[i as int].name@);
            p -= 1;
        }
        proof {
            if p > 0 {
                assert(before[p - 1] == order[p - 1] as int);
                assert(all[before[p - 1]].name == entries[order[p - 1] as int].name@);
                assert(all[i as int].name == entries[i as int].name@);
            }
            lemma_insert_at(le, before, i as int, p as int);
        }
        order.insert(p, i);
        assert(positions(order@) =~= before.insert(p as int, i as int));
        i += 1;
    }
    order
}

impl Loader {
    /// A load that starts at the content root `root`.
    pub fn new(root: &str) -> (r: Loader)
        ensures
            tasks_view(r.pending@) == seq![TaskModel::List { path: root@, category: None }],
            r.posts@.len() == 0,
    {
        let mut pending: Vec<Task> = Vec::new();
        pending.push(Task::List { path: root.to_owned(), category: None });
        assert(tasks_view(pending@) =~= seq![TaskModel::List { path: root@, category: None }]);
        Loader { pending, posts: Vec::new() }
    }

    /// Takes the next piece of work off the list; `None` when the load is complete.
    pub fn next(&mut self) -> (r: Option<Task>)
        ensures
            catalog(final(self).posts@) == catalog(old(self).posts@),
            match r {
                Some(task) => old(self).pending.len() > 0 && task@ == tasks_view(old(self).pending@).last()
                    && tasks_view(final(self).pending@) == tasks_view(old(self).pending@).drop_last(),
                None => old(self).pending.len() == 0 && final(self).pending.len() == 0,
            },
    {
        let ghost before = tasks_view(self.pending@);
        let r = self.pending.pop();
        proof {
            if r is Some {
                assert(before.last() == r->0@);
                assert(tasks_view(self.pending@) =~= before.drop_last());
            }
        }
        r
    }

    /// Takes the listing of the directory `dir` and puts the work of its entries on
    /// the list, so that it is done before any other, in dictionary order of the
    /// entries' names.
    pub fn listed(&mut self, dir: &str, category: Option<PostType>, entries: &Vec<DirEntry>)
        ensures
            catalog(final(self).posts@) == catalog(old(self).posts@),
            tasks_view(final(self).pending@) == with_entries(
                tasks_view(old(self).pending@),
                dir@,
                category,
                sorted_listing(listing(entries@)),
            ),
    {
        let ghost before = tasks_view(self.pending@);
        let order = order_by_name(entries);
        let ghost all = sorted_listing(listing(entries@));
        let mut k: usize = order.len();
        assert(all.skip(k as int) =~= Seq::<EntryModel>::empty());
        while k > 0
            invariant
                k <= order.len(),
                order.len() == entries.len(),
                forall|j: int| 0 <= j < order.len() ==> 0 <= #[trigger] order[j] < entries.len(),
                positions(order@) == stable_order_by(name_le(listing(entries@)), entries@.len()),
                all == sorted_listing(listing(entries@)),
                catalog(self.posts@) == catalog(old(self).posts@),
                tasks_view(self.pending@) == with_entries(before, dir@, category, all.skip(k as int)),
            decreases k,
        {
            k -= 1;
            let entry = &entries[order[k]];
            proof {
                assert(all.skip(k as int).drop_first() =~= all.skip(k + 1));
                assert(positions(order@)[k as int] == order[k as int] as int);
                assert(all.skip(k as int)[0] == entry@);
            }
            let ghost so_far = tasks_view(self.pending@);
            match task_of(dir, category, entry) {
                Some(task) => {
                    self.pending.push(task);
                    assert(tasks_view(self.pending@) =~= so_far.push(task@));
                },
                None => {},
            }
        }
        assert(all.skip(0) =~= all);
    }

    /// Takes the text of the content file at `path` and adds its post to the catalog.
    ///
    /// Fails, and leaves the load as it was, if the file does not hold a post.
    pub fn loaded(&mut self, path: &str, stem: &str, post_type: PostType, raw: &str) -> (r: Result<
        (),
        LoadError,
    >)
        ensures
            tasks_view(final(self).pending@) == tasks_view(old(self).pending@),
            match r {
                Ok(_) => post_of(stem@, post_type, raw@) is Ok && catalog(final(self).posts@) == catalog(
                    old(self).posts@,
                ).push(post_of(stem@, post_type, raw@)->Ok_0),
                Err(e) => post_of(stem@, post_type, raw@) is Err && catalog(final(self).posts@) == catalog(
                    old(self).posts@,
                ) && e@ == (LoadErrorModel::ContentError {
                    path: path@,
                    cause: post_of(stem@, post_type, raw@)->Err_0,
                }),
            },
    {
        match build_post(stem, post_type, raw) {
            Ok(post) => {
                let ghost before = catalog(self.posts@);
                self.posts.push(post);
                assert(catalog(self.posts@) =~= before.push(post@));
                Ok(())
            },
            Err(cause) => Err(LoadError::ContentError { path: path.to_owned(), cause }),
        }
    }

    /// The error of a directory or file that could not be read.
    pub fn unreadable(path: &str) -> (e: LoadError)
        ensures
            e@ == (LoadErrorModel::IoError { path: path@ }),
    {
        LoadError::IoError { path: path.to_owned() }
    }

    /// Ends the load: fills in the series navigation and hands out the catalog.
    pub fn finish(self) -> (posts: Vec<Post>)
        ensures
            catalog(posts@) == linked_catalog(catalog(self.posts@)),
    {
        let mut posts = self.posts;
        link_series(&mut posts);
        posts
    }
}

} // verus!
