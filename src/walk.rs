use vstd::prelude::*;

use crate::path_map::{
    sep,
    child_path,
    child_relative,
    destination_of,
    get_file_mover_obj,
    get_top_level_dir,
    top_level_name,
};
use crate::queue::{drain_batches, remaining_after, total_requested};
use crate::task::FileMover;

verus! {

broadcast use vstd::seq::group_seq_axioms;

/// What a walk of the source tree found at one path: a regular file, a
/// directory with its entries, or a directory that could not be read.
pub enum SourceNode {
    File { name: String, path: String },
    Dir { name: String, path: String, children: Vec<SourceNode> },
    Unreadable { name: String, path: String },
}

impl SourceNode {
    /// The entry's own name within its parent directory.
    pub open spec fn spec_name(self) -> Seq<char> {
        match self {
            SourceNode::File { name, .. } => name@,
            SourceNode::Dir { name, .. } => name@,
            SourceNode::Unreadable { name, .. } => name@,
        }
    }

    /// The entry's full path on the source side.
    pub open spec fn spec_path(self) -> Seq<char> {
        match self {
            SourceNode::File { path, .. } => path@,
            SourceNode::Dir { path, .. } => path@,
            SourceNode::Unreadable { path, .. } => path@,
        }
    }
}

/// The views of a run of copy tasks.
pub open spec fn task_views(s: Seq<FileMover>) -> Seq<(Seq<char>, Seq<char>)> {
    s.map_values(|t: FileMover| t@)
}

/// The views of a run of strings.
pub open spec fn string_views(s: Seq<String>) -> Seq<Seq<char>> {
    s.map_values(|p: String| p@)
}

/// The copy tasks for `n`, found at path `rel` relative to the walked root,
/// in walk order: one per regular file, written below
/// `destination + top_level_dir` at the file's relative path.
pub open spec fn tasks_of_node(
    n: SourceNode,
    rel: Seq<char>,
    destination: Seq<char>,
    top_level_dir: Seq<char>,
) -> Seq<(Seq<char>, Seq<char>)>
    decreases n,
{
    match n {
        SourceNode::File { path, .. } => seq![
            (path@, destination_of(destination, top_level_dir, rel)),
        ],
        SourceNode::Dir { children, .. } => tasks_of_children(
            children@,
            rel,
            destination,
            top_level_dir,
        ),
        SourceNode::Unreadable { .. } => Seq::empty(),
    }
}

/// The copy tasks for the entries `cs` of the directory at `rel`, in order.
pub open spec fn tasks_of_children(
    cs: Seq<SourceNode>,
    rel: Seq<char>,
    destination: Seq<char>,
    top_level_dir: Seq<char>,
) -> Seq<(Seq<char>, Seq<char>)>
    decreases cs,
{
    if cs.len() == 0 {
        Seq::empty()
    } else {
        let last = cs[cs.len() - 1];
        tasks_of_children(cs.drop_last(), rel, destination, top_level_dir) + tasks_of_node(
            last,
            child_path(rel, last.spec_name()),
            destination,
            top_level_dir,
        )
    }
}

/// The paths of the directories below `n` that could not be read, in walk order.
pub open spec fn skipped_of_node(n: SourceNode) -> Seq<Seq<char>>
    decreases n,
{
    match n {
        SourceNode::File { .. } => Seq::empty(),
        SourceNode::Dir { children, .. } => skipped_of_children(children@),
        SourceNode::Unreadable { path, .. } => seq![path@],
    }
}

/// The unreadable directories below the entries `cs`, in order.
pub open spec fn skipped_of_children(cs: Seq<SourceNode>) -> Seq<Seq<char>>
    decreases cs,
{
    if cs.len() == 0 {
        Seq::empty()
    } else {
        skipped_of_children(cs.drop_last()) + skipped_of_node(cs[cs.len() - 1])
    }
}

/// The source paths of the regular files below `n`, in walk order.
pub open spec fn files_of_node(n: SourceNode) -> Seq<Seq<char>>
    decreases n,
{
    match n {
        SourceNode::File { path, .. } => seq![path@],
        SourceNode::Dir { children, .. } => files_of_children(children@),
        SourceNode::Unreadable { .. } => Seq::empty(),
    }
}

/// The source paths of the regular files below the entries `cs`, in order.
pub open spec fn files_of_children(cs: Seq<SourceNode>) -> Seq<Seq<char>>
    decreases cs,
{
    if cs.len() == 0 {
        Seq::empty()
    } else {
        files_of_children(cs.drop_last()) + files_of_node(cs[cs.len() - 1])
    }
}

/// The source sides of a run of copy tasks.
pub open spec fn task_sources(s: Seq<(Seq<char>, Seq<char>)>) -> Seq<Seq<char>> {
    s.map_values(|t: (Seq<char>, Seq<char>)| t.0)
}

/// The walk gives exactly one task per regular file of the tree, in walk
/// order: no file is left out and none is queued twice.
pub proof fn lemma_one_task_per_file(
    n: SourceNode,
    rel: Seq<char>,
    destination: Seq<char>,
    top_level_dir: Seq<char>,
)
    ensures
        task_sources(tasks_of_node(n, rel, destination, top_level_dir)) == files_of_node(n),
        tasks_of_node(n, rel, destination, top_level_dir).len() == files_of_node(n).len(),
    decreases n,
{
    match n {
        SourceNode::File { path, .. } => {
            assert(task_sources(tasks_of_node(n, rel, destination, top_level_dir))
                =~= files_of_node(n));
        },
        SourceNode::Dir { children, .. } => {
            lemma_one_task_per_child(children@, rel, destination, top_level_dir);
        },
        SourceNode::Unreadable { .. } => {
            assert(task_sources(tasks_of_node(n, rel, destination, top_level_dir))
                =~= files_of_node(n));
        },
    }
}

/// One task per regular file below the entries `cs`, in order.
pub proof fn lemma_one_task_per_child(
    cs: Seq<SourceNode>,
    rel: Seq<char>,
    destination: Seq<char>,
    top_level_dir: Seq<char>,
)
    ensures
        task_sources(tasks_of_children(cs, rel, destination, top_level_dir))
            == files_of_children(cs),
        tasks_of_children(cs, rel, destination, top_level_dir).len()
            == files_of_children(cs).len(),
    decreases cs,
{
    if cs.len() == 0 {
        assert(task_sources(tasks_of_children(cs, rel, destination, top_level_dir))
            =~= files_of_children(cs));
    } else {
        let last = cs[cs.len() - 1];
        let last_rel = child_path(rel, last.spec_name());
        lemma_one_task_per_child(cs.drop_last(), rel, destination, top_level_dir);
        lemma_one_task_per_file(last, last_rel, destination, top_level_dir);
        let a = tasks_of_children(cs.drop_last(), rel, destination, top_level_dir);
        let b = tasks_of_node(last, last_rel, destination, top_level_dir);
        assert(task_sources(a + b) =~= task_sources(a) + task_sources(b));
    }
}

/// Once the tasks of a walk are queued (a `SafeQueue` whose view is
/// `queued`), workers that take turns at `SafeQueue::drain` until the queue is
/// empty copy every regular file of the tree exactly once, whatever the number
/// of workers and the sizes and order of their requests: the batches handed
/// out are the queued tasks, each once, and nothing is left.
pub proof fn lemma_every_file_copied_once(
    root: SourceNode,
    destination: Seq<char>,
    top_level_dir: Seq<char>,
    queued: Seq<FileMover>,
    requests: Seq<nat>,
)
    requires
        task_views(queued) == tasks_of_node(root, Seq::empty(), destination, top_level_dir),
        total_requested(requests) >= files_of_node(root).len(),
    ensures
        drain_batches(queued, requests).flatten() == queued,
        task_sources(task_views(drain_batches(queued, requests).flatten())) == files_of_node(root),
        remaining_after(queued, requests).len() == 0,
{
    lemma_one_task_per_file(root, Seq::empty(), destination, top_level_dir);
    assert(task_views(queued).len() == queued.len());
    crate::queue::lemma_drains_partition_queue(queued, requests);
    assert(queued.take(queued.len() as int) =~= queued);
}

/// The number of workers does not change what is copied: two runs over the
/// same queued tasks whose workers take turns at `SafeQueue::drain` until the
/// queue is empty, with any sizes and order of requests, hand out the same
/// tasks.
pub proof fn lemma_worker_count_does_not_matter(
    root: SourceNode,
    destination: Seq<char>,
    top_level_dir: Seq<char>,
    queued: Seq<FileMover>,
    requests_a: Seq<nat>,
    requests_b: Seq<nat>,
)
    requires
        task_views(queued) == tasks_of_node(root, Seq::empty(), destination, top_level_dir),
        total_requested(requests_a) >= files_of_node(root).len(),
        total_requested(requests_b) >= files_of_node(root).len(),
    ensures
        drain_batches(queued, requests_a).flatten() == drain_batches(queued, requests_b).flatten(),
{
    lemma_every_file_copied_once(root, destination, top_level_dir, queued, requests_a);
    lemma_every_file_copied_once(root, destination, top_level_dir, queued, requests_b);
}

/// Every entry below `n` lies at its parent's path, a separator and its own
/// name, as a walk of a real directory tree finds it.
pub open spec fn paths_consistent(n: SourceNode) -> bool
    decreases n,
{
    match n {
        SourceNode::Dir { path, children, .. } => children_consistent(path@, children@),
        _ => true,
    }
}

/// Each of the entries `cs` lies at `parent`, a separator and its own name,
/// and so does everything below it.
pub open spec fn children_consistent(parent: Seq<char>, cs: Seq<SourceNode>) -> bool
    decreases cs,
{
    if cs.len() == 0 {
        true
    } else {
        let last = cs[cs.len() - 1];
        &&& children_consistent(parent, cs.drop_last())
        &&& last.spec_path() == child_path(parent, last.spec_name())
        &&& paths_consistent(last)
    }
}

/// The task `t`'s source lies below `root_path`, and its destination is the
/// destination root, the top-level name, `rel`, and the source's suffix below
/// `root_path`.
pub open spec fn mirrors_one(
    t: (Seq<char>, Seq<char>),
    root_path: Seq<char>,
    rel: Seq<char>,
    destination: Seq<char>,
    top_level_dir: Seq<char>,
) -> bool {
    &&& t.0.len() >= root_path.len()
    &&& t.0.subrange(0, root_path.len() as int) == root_path
    &&& t.1 == destination_of(
        destination,
        top_level_dir,
        rel + t.0.subrange(root_path.len() as int, t.0.len() as int),
    )
}

/// Every task of `ts` mirrors its source below `root_path`.
pub open spec fn mirrors(
    ts: Seq<(Seq<char>, Seq<char>)>,
    root_path: Seq<char>,
    rel: Seq<char>,
    destination: Seq<char>,
    top_level_dir: Seq<char>,
) -> bool {
    forall|i: int|
        0 <= i < ts.len() ==> mirrors_one(#[trigger] ts[i], root_path, rel, destination, top_level_dir)
}

proof fn lemma_mirrors_child(
    ts: Seq<(Seq<char>, Seq<char>)>,
    parent: Seq<char>,
    name: Seq<char>,
    rel: Seq<char>,
    destination: Seq<char>,
    top_level_dir: Seq<char>,
)
    requires
        mirrors(ts, child_path(parent, name), child_path(rel, name), destination, top_level_dir),
    ensures
        mirrors(ts, parent, rel, destination, top_level_dir),
{
    let cp = child_path(parent, name);
    assert forall|i: int| 0 <= i < ts.len() implies mirrors_one(
        #[trigger] ts[i],
        parent,
        rel,
        destination,
        top_level_dir,
    ) by {
        assert(mirrors_one(ts[i], cp, child_path(rel, name), destination, top_level_dir));
        let s = ts[i].0;
        assert(s.subrange(0, parent.len() as int) =~= cp.subrange(0, parent.len() as int));
        assert(cp.subrange(0, parent.len() as int) =~= parent);
        let sfx = s.subrange(cp.len() as int, s.len() as int);
        assert(s.subrange(parent.len() as int, s.len() as int) =~= seq![sep()] + name + sfx) by {
            assert(s =~= s.subrange(0, cp.len() as int) + sfx);
        }
        assert(rel + s.subrange(parent.len() as int, s.len() as int) =~= child_path(rel, name)
            + sfx);
    }
}

proof fn lemma_mirrors_concat(
    a: Seq<(Seq<char>, Seq<char>)>,
    b: Seq<(Seq<char>, Seq<char>)>,
    root_path: Seq<char>,
    rel: Seq<char>,
    destination: Seq<char>,
    top_level_dir: Seq<char>,
)
    requires
        mirrors(a, root_path, rel, destination, top_level_dir),
        mirrors(b, root_path, rel, destination, top_level_dir),
    ensures
        mirrors(a + b, root_path, rel, destination, top_level_dir),
{
    assert forall|i: int| 0 <= i < (a + b).len() implies mirrors_one(
        #[trigger] (a + b)[i],
        root_path,
        rel,
        destination,
        top_level_dir,
    ) by {
        if i < a.len() {
            assert((a + b)[i] == a[i]);
        } else {
            assert((a + b)[i] == b[i - a.len()]);
        }
    }
}

/// The destination tree mirrors the source tree: in a tree whose paths are
/// consistent, every task's destination is the destination root, the
/// top-level name, the relative path of `n`, and the source's suffix below
/// `n`'s own path.
pub proof fn lemma_destination_mirrors_source(
    n: SourceNode,
    rel: Seq<char>,
    destination: Seq<char>,
    top_level_dir: Seq<char>,
)
    requires
        paths_consistent(n),
    ensures
        mirrors(tasks_of_node(n, rel, destination, top_level_dir), n.spec_path(), rel, destination, top_level_dir),
    decreases n,
{
    match n {
        SourceNode::File { path, .. } => {
            let ts = tasks_of_node(n, rel, destination, top_level_dir);
            let s = path@;
            assert(ts[0].0 == s);
            assert(s.subrange(0, s.len() as int) =~= s);
            assert(rel + s.subrange(s.len() as int, s.len() as int) =~= rel);
            assert(mirrors_one(ts[0], s, rel, destination, top_level_dir));
        },
        SourceNode::Dir { path, children, .. } => {
            lemma_children_mirror(path@, children@, rel, destination, top_level_dir);
        },
        SourceNode::Unreadable { .. } => {},
    }
}

/// The tasks of the entries `cs` of the directory at `parent` mirror it.
pub proof fn lemma_children_mirror(
    parent: Seq<char>,
    cs: Seq<SourceNode>,
    rel: Seq<char>,
    destination: Seq<char>,
    top_level_dir: Seq<char>,
)
    requires
        children_consistent(parent, cs),
    ensures
        mirrors(tasks_of_children(cs, rel, destination, top_level_dir), parent, rel, destination, top_level_dir),
    decreases cs,
{
    if cs.len() > 0 {
        let last = cs[cs.len() - 1];
        let last_rel = child_path(rel, last.spec_name());
        lemma_children_mirror(parent, cs.drop_last(), rel, destination, top_level_dir);
        lemma_destination_mirrors_source(last, last_rel, destination, top_level_dir);
        let b = tasks_of_node(last, last_rel, destination, top_level_dir);
        lemma_mirrors_child(b, parent, last.spec_name(), rel, destination, top_level_dir);
        lemma_mirrors_concat(
            tasks_of_children(cs.drop_last(), rel, destination, top_level_dir),
            b,
            parent,
            rel,
            destination,
            top_level_dir,
        );
    }
}

/// Walks the tree below `node`, found at path `relative` relative to the
/// walked root, appending a copy task for each regular file to `tasks` and
/// the path of each unreadable directory to `skipped`.
#[verifier::loop_isolation(false)]
pub fn walk_directory(
    node: &SourceNode,
    relative: &str,
    destination: &str,
    top_level_dir: &str,
    tasks: &mut Vec<FileMover>,
    skipped: &mut Vec<String>,
)
    ensures
        task_views(final(tasks)@) == task_views(old(tasks)@) + tasks_of_node(
            *node,
            relative@,
            destination@,
            top_level_dir@,
        ),
        string_views(final(skipped)@) == string_views(old(skipped)@) + skipped_of_node(*node),
    decreases node,
{
    match node {
        SourceNode::File { path, .. } => {
            let t = get_file_mover_obj(path.clone(), destination, top_level_dir, relative);
            tasks.push(t);
            assert(task_views(tasks@) =~= task_views(old(tasks)@) + tasks_of_node(
                *node,
                relative@,
                destination@,
                top_level_dir@,
            ));
            assert(string_views(skipped@) =~= string_views(old(skipped)@) + skipped_of_node(*node));
        },
        SourceNode::Unreadable { path, .. } => {
            skipped.push(path.clone());
            assert(task_views(tasks@) =~= task_views(old(tasks)@) + tasks_of_node(
                *node,
                relative@,
                destination@,
                top_level_dir@,
            ));
            assert(string_views(skipped@) =~= string_views(old(skipped)@) + skipped_of_node(*node));
        },
        SourceNode::Dir { children, .. } => {
            let mut i: usize = 0;
            assert(children@.take(0) =~= Seq::<SourceNode>::empty());
            assert(task_views(tasks@) =~= task_views(old(tasks)@) + tasks_of_children(
                children@.take(0),
                relative@,
                destination@,
                top_level_dir@,
            ));
            assert(string_views(skipped@) =~= string_views(old(skipped)@) + skipped_of_children(
                children@.take(0),
            ));
            while i < children.len()
                invariant
                    i <= children.len(),
                    task_views(tasks@) == task_views(old(tasks)@) + tasks_of_children(
                        children@.take(i as int),
                        relative@,
                        destination@,
                        top_level_dir@,
                    ),
                    string_views(skipped@) == string_views(old(skipped)@) + skipped_of_children(
                        children@.take(i as int),
                    ),
                decreases children.len() - i,
            {
                let child = &children[i];
                let child_rel = child_relative(relative, child_name(child));
                walk_directory(child, child_rel.as_str(), destination, top_level_dir, tasks, skipped);
                assert(children@.take(i + 1).drop_last() =~= children@.take(i as int));
                i = i + 1;
            }
            assert(children@.take(i as int) =~= children@);
        },
    }
}

/// The result of walking a source tree: a copy task for each regular file,
/// and the directories that could not be read.
pub struct CopyPlan {
    pub tasks: Vec<FileMover>,
    pub skipped: Vec<String>,
}

/// Walks the tree read from the root path `source`, mapping each regular
/// file below it into `destination` under the root's own name.
pub fn plan_copy(source: &str, root: &SourceNode, destination: &str) -> (r: CopyPlan)
    ensures
        task_views(r.tasks@) == tasks_of_node(
            *root,
            Seq::empty(),
            destination@,
            top_level_name(source@),
        ),
        string_views(r.skipped@) == skipped_of_node(*root),
{
    let top_level_dir = get_top_level_dir(source);
    let relative = String::new();
    let mut tasks: Vec<FileMover> = Vec::new();
    let mut skipped: Vec<String> = Vec::new();
    walk_directory(root, relative.as_str(), destination, top_level_dir.as_str(), &mut tasks, &mut skipped);
    assert(task_views(tasks@) =~= task_views(Seq::<FileMover>::empty()) + tasks_of_node(
        *root,
        Seq::empty(),
        destination@,
        top_level_name(source@),
    ));
    assert(string_views(skipped@) =~= string_views(Seq::<String>::empty()) + skipped_of_node(*root));
    CopyPlan { tasks, skipped }
}

/// The entry's own name within its parent directory.
pub fn child_name(n: &SourceNode) -> (r: &str)
    ensures
        r@ == n.spec_name(),
{
    match n {
        SourceNode::File { name, .. } => name.as_str(),
        SourceNode::Dir { name, .. } => name.as_str(),
        SourceNode::Unreadable { name, .. } => name.as_str(),
    }
}

} // verus!
