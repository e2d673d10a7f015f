//! What a load reads: the content files below the root, in the order of a
//! depth-first walk that takes the entries of each directory by name.
//!
//! The loader works off a list of tasks, one step at a time. Here the content
//! directory is modelled as a tree, and each task is paired with the node it is
//! about. The files that remain to be read are then a function of the list, and
//! a step of the loader leaves them as they were, or takes the first one off.

use vstd::prelude::*;
use crate::loader::{
    lemma_sorted_listing, name_le, post_of, sorted_listing, task_for, with_entries, EntryModel, LoadErrorModel,
    TaskModel,
};
use crate::post::{PostModel, PostType};
use crate::sort::{is_arrangement, stable_order_by};

verus! {

/// A file or a directory with all that is below it.
pub ghost enum Tree {
    File { name: Seq<char>, text: Seq<char> },
    Dir { name: Seq<char>, entries: Seq<Tree> },
}

/// A content file that a load reads.
pub ghost struct FileModel {
    pub path: Seq<char>,
    pub stem: Seq<char>,
    pub post_type: PostType,
    pub text: Seq<char>,
}

/// A task of the loader and the node it is about.
pub ghost struct Job {
    pub task: TaskModel,
    pub node: Tree,
}

/// How a node appears in the listing of its directory.
pub open spec fn entry_of(node: Tree) -> EntryModel {
    match node {
        Tree::File { name, .. } => EntryModel { name, is_dir: false },
        Tree::Dir { name, .. } => EntryModel { name, is_dir: true },
    }
}

/// The listing of a directory with the entries `nodes`.
pub open spec fn entries_of(nodes: Seq<Tree>) -> Seq<EntryModel> {
    nodes.map_values(|n: Tree| entry_of(n))
}

/// The positions of the entries of a directory in dictionary order of their names.
pub open spec fn name_order(nodes: Seq<Tree>) -> Seq<int> {
    stable_order_by(name_le(entries_of(nodes)), nodes.len())
}

/// The files that a task reads, at once or by the tasks that follow from it.
pub open spec fn work_of(task: TaskModel, node: Tree) -> Seq<FileModel>
    decreases node, 0nat,
{
    match task {
        TaskModel::Read { path, stem, post_type } => match node {
            Tree::File { text, .. } => seq![FileModel { path, stem, post_type, text }],
            Tree::Dir { .. } => Seq::<FileModel>::empty(),
        },
        TaskModel::List { path, category } => match node {
            Tree::File { .. } => Seq::<FileModel>::empty(),
            Tree::Dir { entries, .. } => files_by(path, category, entries, name_order(entries), 0),
        },
    }
}

/// The files read for the entries `nodes[order[k]]`, `nodes[order[k + 1]]`, … of the
/// directory `dir`, whose posts are of the kind `category` if it has one.
pub open spec fn files_by(
    dir: Seq<char>,
    category: Option<PostType>,
    nodes: Seq<Tree>,
    order: Seq<int>,
    k: nat,
) -> Seq<FileModel>
    decreases nodes, order.len() - k,
{
    if k >= order.len() {
        Seq::<FileModel>::empty()
    } else {
        let first = if 0 <= order[k as int] < nodes.len() {
            let node = nodes[order[k as int]];
            match task_for(dir, category, entry_of(node)) {
                Some(task) => work_of(task, node),
                None => Seq::<FileModel>::empty(),
            }
        } else {
            Seq::<FileModel>::empty()
        };
        first + files_by(dir, category, nodes, order, k + 1)
    }
}

/// The files that a load of the tree `root` at the path `path` reads, in order.
pub open spec fn files_of(path: Seq<char>, root: Tree) -> Seq<FileModel> {
    work_of(TaskModel::List { path, category: None }, root)
}

/// The files that remain to be read when `jobs` is the work list, the topmost job last.
pub open spec fn remaining(jobs: Seq<Job>) -> Seq<FileModel>
    decreases jobs.len(),
{
    if jobs.len() == 0 {
        Seq::<FileModel>::empty()
    } else {
        work_of(jobs.last().task, jobs.last().node) + remaining(jobs.drop_last())
    }
}

/// The tasks of a work list.
pub open spec fn tasks_of(jobs: Seq<Job>) -> Seq<TaskModel> {
    jobs.map_values(|j: Job| j.task)
}

/// The work list with the jobs of the entries `nodes[order[k]]`, `nodes[order[k + 1]]`, …
/// of the directory `dir` on top, the first entry's topmost.
pub open spec fn with_jobs(
    jobs: Seq<Job>,
    dir: Seq<char>,
    category: Option<PostType>,
    nodes: Seq<Tree>,
    order: Seq<int>,
    k: nat,
) -> Seq<Job>
    decreases order.len() - k,
{
    if k >= order.len() {
        jobs
    } else {
        let rest = with_jobs(jobs, dir, category, nodes, order, k + 1);
        let node = nodes[order[k as int]];
        match task_for(dir, category, entry_of(node)) {
            Some(task) => rest.push(Job { task, node }),
            None => rest,
        }
    }
}

/// The posts of the first `n` files, or the error of the first file among them
/// that does not hold a post.
pub open spec fn catalog_of(files: Seq<FileModel>, n: nat) -> Result<Seq<PostModel>, LoadErrorModel>
    decreases n,
{
    if n == 0 {
        Ok(Seq::<PostModel>::empty())
    } else {
        match catalog_of(files, (n - 1) as nat) {
            Err(e) => Err(e),
            Ok(posts) => {
                let file = files[n - 1];
                match post_of(file.stem, file.post_type, file.text) {
                    Ok(post) => Ok(posts.push(post)),
                    Err(cause) => Err(LoadErrorModel::ContentError { path: file.path, cause }),
                }
            },
        }
    }
}

proof fn lemma_with_jobs(
    jobs: Seq<Job>,
    dir: Seq<char>,
    category: Option<PostType>,
    nodes: Seq<Tree>,
    order: Seq<int>,
    k: nat,
)
    requires
        k <= order.len(),
        forall|j: int| 0 <= j < order.len() ==> 0 <= #[trigger] order[j] < nodes.len(),
    ensures
        remaining(with_jobs(jobs, dir, category, nodes, order, k)) == files_by(dir, category, nodes, order, k)
            + remaining(jobs),
        tasks_of(with_jobs(jobs, dir, category, nodes, order, k)) == with_entries(
            tasks_of(jobs),
            dir,
            category,
            order.map_values(|i: int| entries_of(nodes)[i]).skip(k as int),
        ),
    decreases order.len() - k,
{
    let sorted = order.map_values(|i: int| entries_of(nodes)[i]);
    if k >= order.len() {
        assert(files_by(dir, category, nodes, order, k) + remaining(jobs) =~= remaining(jobs));
        assert(sorted.skip(k as int).len() == 0);
    } else {
        lemma_with_jobs(jobs, dir, category, nodes, order, k + 1);
        let rest = with_jobs(jobs, dir, category, nodes, order, k + 1);
        let node = nodes[order[k as int]];
        let later = files_by(dir, category, nodes, order, k + 1);
        assert(sorted.skip(k as int)[0] == entry_of(node));
        assert(sorted.skip(k as int).drop_first() =~= sorted.skip(k as int + 1));
        match task_for(dir, category, entry_of(node)) {
            Some(task) => {
                let job = Job { task, node };
                let out = rest.push(job);
                assert(out.last() == job);
                assert(out.drop_last() =~= rest);
                assert(remaining(out) == work_of(task, node) + remaining(rest));
                assert(work_of(task, node) + (later + remaining(jobs)) =~= (work_of(task, node) + later)
                    + remaining(jobs));
                assert(tasks_of(out) =~= tasks_of(rest).push(task));
            },
            None => {
                assert(Seq::<FileModel>::empty() + later =~= later);
            },
        }
    }
}

/// Listing a directory leaves the files that remain to be read as they were: the
/// jobs that take the place of the listing read what the listing stood for. The
/// tasks of these jobs are the ones that the loader puts on its list.
pub proof fn lemma_listing_step(jobs: Seq<Job>, path: Seq<char>, category: Option<PostType>, node: Tree)
    requires
        node is Dir,
    ensures
        remaining(with_jobs(jobs, path, category, node->entries, name_order(node->entries), 0)) == remaining(
            jobs.push(Job { task: TaskModel::List { path, category }, node }),
        ),
        tasks_of(with_jobs(jobs, path, category, node->entries, name_order(node->entries), 0)) == with_entries(
            tasks_of(jobs),
            path,
            category,
            sorted_listing(entries_of(node->entries)),
        ),
{
    let nodes = node->entries;
    let order = name_order(nodes);
    lemma_sorted_listing(entries_of(nodes));
    assert(is_arrangement(order, nodes.len()));
    lemma_with_jobs(jobs, path, category, nodes, order, 0);
    let job = Job { task: TaskModel::List { path, category }, node };
    assert(jobs.push(job).last() == job);
    assert(jobs.push(job).drop_last() =~= jobs);
    let sorted = order.map_values(|i: int| entries_of(nodes)[i]);
    assert(sorted.skip(0) =~= sorted);
    assert(sorted =~= sorted_listing(entries_of(nodes)));
}

/// Reading a file takes it off the files that remain to be read.
pub proof fn lemma_reading_step(
    jobs: Seq<Job>,
    path: Seq<char>,
    stem: Seq<char>,
    post_type: PostType,
    node: Tree,
)
    requires
        node is File,
    ensures
        remaining(jobs.push(Job { task: TaskModel::Read { path, stem, post_type }, node })) == seq![
            FileModel { path, stem, post_type, text: node->text },
        ] + remaining(jobs),
{
    let job = Job { task: TaskModel::Read { path, stem, post_type }, node };
    assert(jobs.push(job).last() == job);
    assert(jobs.push(job).drop_last() =~= jobs);
}

/// At the start of a load the files that remain to be read are all files of the tree.
pub proof fn lemma_first_step(path: Seq<char>, root: Tree)
    ensures
        remaining(seq![Job { task: TaskModel::List { path, category: None }, node: root }]) == files_of(path, root),
{
    let job = Job { task: TaskModel::List { path, category: None }, node: root };
    let jobs = seq![job];
    assert(jobs.last() == job);
    assert(jobs.drop_last() =~= Seq::<Job>::empty());
    assert(remaining(jobs.drop_last()) =~= Seq::<FileModel>::empty());
    assert(work_of(job.task, job.node) + Seq::<FileModel>::empty() =~= work_of(job.task, job.node));
}

/// Whether a load of `files` is on course after `done` of them: their posts are
/// `posts`, and the files that remain to be read are the rest.
pub open spec fn on_course(files: Seq<FileModel>, done: nat, jobs: Seq<Job>, posts: Seq<PostModel>) -> bool {
    &&& done <= files.len()
    &&& files.skip(done as int) == remaining(jobs)
    &&& catalog_of(files, done) == Ok::<Seq<PostModel>, LoadErrorModel>(posts)
}

/// A load starts on course.
pub proof fn lemma_starts_on_course(path: Seq<char>, root: Tree)
    ensures
        on_course(
            files_of(path, root),
            0,
            seq![Job { task: TaskModel::List { path, category: None }, node: root }],
            Seq::<PostModel>::empty(),
        ),
{
    lemma_first_step(path, root);
    assert(files_of(path, root).skip(0) =~= files_of(path, root));
}

/// Listing a directory keeps a load on course.
pub proof fn lemma_listing_keeps_course(
    files: Seq<FileModel>,
    done: nat,
    jobs: Seq<Job>,
    posts: Seq<PostModel>,
    path: Seq<char>,
    category: Option<PostType>,
    node: Tree,
)
    requires
        node is Dir,
        on_course(files, done, jobs.push(Job { task: TaskModel::List { path, category }, node }), posts),
    ensures
        on_course(files, done, with_jobs(jobs, path, category, node->entries, name_order(node->entries), 0), posts),
{
    lemma_listing_step(jobs, path, category, node);
}

/// Reading a file that holds a post keeps a load on course, with one more file done
/// and its post added.
pub proof fn lemma_reading_keeps_course(
    files: Seq<FileModel>,
    done: nat,
    jobs: Seq<Job>,
    posts: Seq<PostModel>,
    path: Seq<char>,
    stem: Seq<char>,
    post_type: PostType,
    node: Tree,
)
    requires
        node is File,
        on_course(files, done, jobs.push(Job { task: TaskModel::Read { path, stem, post_type }, node }), posts),
        post_of(stem, post_type, node->text) is Ok,
    ensures
        on_course(files, done + 1, jobs, posts.push(post_of(stem, post_type, node->text)->Ok_0)),
{
    lemma_reading_step(jobs, path, stem, post_type, node);
    let file = FileModel { path, stem, post_type, text: node->text };
    let rest = files.skip(done as int);
    assert(rest == seq![file] + remaining(jobs));
    assert(rest.len() >= 1);
    assert(rest[0] == file);
    assert(files[done as int] == file);
    assert(files.skip(done as int + 1) =~= remaining(jobs)) by {
        assert(rest.skip(1) =~= remaining(jobs));
        assert(files.skip(done as int + 1) =~= rest.skip(1));
    }
}

/// Once a file does not hold a post, the load of all files fails with the error of that file.
pub proof fn lemma_reading_ends_course(
    files: Seq<FileModel>,
    done: nat,
    jobs: Seq<Job>,
    posts: Seq<PostModel>,
    path: Seq<char>,
    stem: Seq<char>,
    post_type: PostType,
    node: Tree,
)
    requires
        node is File,
        on_course(files, done, jobs.push(Job { task: TaskModel::Read { path, stem, post_type }, node }), posts),
        post_of(stem, post_type, node->text) is Err,
    ensures
        catalog_of(files, files.len()) == Err::<Seq<PostModel>, LoadErrorModel>(
            LoadErrorModel::ContentError { path, cause: post_of(stem, post_type, node->text)->Err_0 },
        ),
{
    lemma_reading_step(jobs, path, stem, post_type, node);
    let file = FileModel { path, stem, post_type, text: node->text };
    let rest = files.skip(done as int);
    assert(rest == seq![file] + remaining(jobs));
    assert(rest.len() >= 1);
    assert(rest[0] == file);
    assert(files[done as int] == file);
    assert(catalog_of(files, done + 1) is Err);
    lemma_error_stays(files, done + 1, files.len());
}

/// The error of the first file that does not hold a post is the error of the load.
proof fn lemma_error_stays(files: Seq<FileModel>, n: nat, m: nat)
    requires
        n <= m,
        catalog_of(files, n) is Err,
    ensures
        catalog_of(files, m) == catalog_of(files, n),
    decreases m - n,
{
    if n < m {
        lemma_error_stays(files, n, (m - 1) as nat);
    }
}

/// When no work is left, all files are done, and the posts are those of all files.
pub proof fn lemma_course_ends(files: Seq<FileModel>, done: nat, posts: Seq<PostModel>)
    requires
        on_course(files, done, Seq::<Job>::empty(), posts),
    ensures
        catalog_of(files, files.len()) == Ok::<Seq<PostModel>, LoadErrorModel>(posts),
{
    assert(files.skip(done as int).len() == 0);
    assert(done == files.len());
}

} // verus!
