//! A model of the file tree, for saying what a run leaves behind.
//!
//! The model is a map from paths, as they are written, to nodes. It knows
//! files, directories, symbolic links and nodes of any other kind; it
//! follows links by their target text, and it removes a directory together
//! with every path written below it. Every primitive is taken to succeed.
//! [`reconciled`] and [`ran`] state what one reconciliation and one run make
//! of such a tree.

use vstd::prelude::*;

use crate::error::{invalid_path, SyncErrorView};
use crate::filesystem::{OperationView, Probe, Reply};
use crate::mapping::PairView;

verus! {

/// What stands at one path.
pub enum Node {
    /// A regular file.
    File,
    /// A directory.
    Dir,
    /// Something that is neither file, directory nor link, such as a device.
    Other,
    /// A symbolic link to `target`, created as a directory link or not.
    Link { target: Seq<char>, dir: bool },
}

/// The paths that are occupied, each with what stands there.
pub type Tree = Map<Seq<char>, Node>;

/// `path` is `root` or is written below it.
pub open spec fn within(path: Seq<char>, root: Seq<char>) -> bool {
    path == root || (root.len() < path.len() && path.subrange(0, root.len() as int) == root
        && path[root.len() as int] == '/')
}

/// The paths at and below `root`.
pub open spec fn below(root: Seq<char>) -> Set<Seq<char>> {
    Set::new(|path: Seq<char>| within(path, root))
}

/// How many links in a row are followed before a path counts as dangling.
pub open spec fn max_hops() -> nat {
    40
}

/// What `path` leads to when links are followed, at most `hops` of them:
/// a node that is no link, or nothing.
pub open spec fn resolve(tree: Tree, path: Seq<char>, hops: nat) -> Option<Node>
    decreases hops,
{
    if !tree.contains_key(path) {
        None
    } else {
        match tree[path] {
            Node::Link { target, .. } => if hops == 0 {
                None
            } else {
                resolve(tree, target, (hops - 1) as nat)
            },
            node => Some(node),
        }
    }
}

/// What `path` leads to when links are followed.
pub open spec fn reach(tree: Tree, path: Seq<char>) -> Option<Node> {
    resolve(tree, path, max_hops())
}

/// What a look at `path` reports.
pub open spec fn look(tree: Tree, path: Seq<char>) -> Probe {
    Probe {
        is_link: tree.contains_key(path) && tree[path] is Link,
        exists: reach(tree, path) is Some,
        is_file: reach(tree, path) == Some(Node::File),
        is_dir: reach(tree, path) == Some(Node::Dir),
    }
}

/// The tree after `operation`.
pub open spec fn effect(tree: Tree, operation: OperationView) -> Tree {
    match operation {
        OperationView::Inspect(_) => tree,
        OperationView::Unlink(path) => tree.remove(path),
        OperationView::RemoveFile(path) => tree.remove(path),
        OperationView::RemoveDirAll(path) => tree.remove_keys(below(path)),
        OperationView::LinkFile { source, destination } => tree.insert(
            destination,
            Node::Link { target: source, dir: false },
        ),
        OperationView::LinkDir { source, destination } => tree.insert(
            destination,
            Node::Link { target: source, dir: true },
        ),
    }
}

/// The reply that `operation` gets from the tree.
pub open spec fn answer(tree: Tree, operation: OperationView) -> Reply {
    match operation {
        OperationView::Inspect(path) => Reply::Probed(look(tree, path)),
        _ => Reply::Performed(Ok(())),
    }
}

/// The tree is in a state in which `operation` can succeed: what is
/// unlinked is a link, what is removed is a file or a directory as asked,
/// and a link is created where nothing stands, to a source of its type.
pub open spec fn permits(tree: Tree, operation: OperationView) -> bool {
    match operation {
        OperationView::Inspect(_) => true,
        OperationView::Unlink(path) => tree.contains_key(path) && tree[path] is Link,
        OperationView::RemoveFile(path) => tree.contains_key(path) && tree[path] is File,
        OperationView::RemoveDirAll(path) => tree.contains_key(path) && tree[path] is Dir,
        OperationView::LinkFile { source, destination } => !tree.contains_key(destination)
            && reach(tree, source) == Some(Node::File),
        OperationView::LinkDir { source, destination } => !tree.contains_key(destination) && reach(
            tree,
            source,
        ) == Some(Node::Dir),
    }
}

/// Where a run ends: the tree it leaves and what it reports.
pub struct Outcome {
    pub tree: Tree,
    pub result: Result<(), SyncErrorView>,
}

/// The tree with `destination` vacated: a link or a file removed, a
/// directory removed with all below it. There is none where a node of
/// another kind stands there.
pub open spec fn vacated(tree: Tree, destination: Seq<char>) -> Option<Tree> {
    if !tree.contains_key(destination) {
        Some(tree)
    } else {
        match tree[destination] {
            Node::Link { .. } => Some(tree.remove(destination)),
            Node::File => Some(tree.remove(destination)),
            Node::Dir => Some(tree.remove_keys(below(destination))),
            Node::Other => None,
        }
    }
}

/// What reconciling `destination` with `source` makes of the tree, and
/// what it reports.
///
/// A destination of another kind than link, file or directory is refused
/// and nothing changes. Otherwise the destination is vacated; then a source
/// that leads to a file or a directory is linked to, with a link of that
/// type, a source that leads nowhere is reported missing, and a source of
/// another kind is refused.
pub open spec fn reconciled(tree: Tree, source: Seq<char>, destination: Seq<char>) -> Outcome {
    match vacated(tree, destination) {
        None => Outcome { tree, result: Err(invalid_path(destination)) },
        Some(base) => match reach(base, source) {
            None => Outcome {
                tree: base,
                result: Err(SyncErrorView::SourceMissing(source)),
            },
            Some(Node::File) => Outcome {
                tree: base.insert(destination, Node::Link { target: source, dir: false }),
                result: Ok(()),
            },
            Some(Node::Dir) => Outcome {
                tree: base.insert(destination, Node::Link { target: source, dir: true }),
                result: Ok(()),
            },
            Some(_) => Outcome { tree: base, result: Err(invalid_path(source)) },
        },
    }
}

/// What reconciling the pairs from the one at `from` on, in order and up to
/// the first failure, makes of the tree, and what it reports.
pub open spec fn ran_from(tree: Tree, pairs: Seq<PairView>, from: nat) -> Outcome
    decreases pairs.len() - from,
{
    if from >= pairs.len() {
        Outcome { tree, result: Ok(()) }
    } else {
        let one = reconciled(tree, pairs[from as int].source, pairs[from as int].destination);
        if one.result is Err {
            one
        } else {
            ran_from(one.tree, pairs, from + 1)
        }
    }
}

/// What a run over `pairs` makes of the tree, and what it reports.
pub open spec fn ran(tree: Tree, pairs: Seq<PairView>) -> Outcome {
    ran_from(tree, pairs, 0)
}

/// Following links never ends at a link.
pub proof fn lemma_resolve_no_link(tree: Tree, path: Seq<char>, hops: nat)
    ensures
        !(resolve(tree, path, hops) matches Some(Node::Link { .. })),
    decreases hops,
{
    if tree.contains_key(path) {
        match tree[path] {
            Node::Link { target, .. } => {
                if hops > 0 {
                    lemma_resolve_no_link(tree, target, (hops - 1) as nat);
                }
            },
            _ => {},
        }
    }
}

} // verus!
