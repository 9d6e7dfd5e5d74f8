//! What holds of every reconciliation and every run, stated over the model
//! tree and proved.

use vstd::prelude::*;

use crate::error::{invalid_path, SyncErrorView};
use crate::mapping::PairView;
use crate::tree::{
    max_hops, ran, ran_from, reach, reconciled, resolve, vacated, within, Node, Tree,
};

verus! {

/// The two trees have the same at `path`: nothing, or the same node.
pub open spec fn same_at(one: Tree, other: Tree, path: Seq<char>) -> bool {
    one.contains_key(path) == other.contains_key(path) && (one.contains_key(path) ==> one[path]
        == other[path])
}

/// The two trees have the same at every path that is not at or below
/// `root`.
pub open spec fn same_outside(one: Tree, other: Tree, root: Seq<char>) -> bool {
    forall|path: Seq<char>| !within(path, root) ==> same_at(one, other, path)
}

/// The two trees have the same at `root` and at every path below it.
pub open spec fn same_within(one: Tree, other: Tree, root: Seq<char>) -> bool {
    forall|path: Seq<char>| within(path, root) ==> same_at(one, other, path)
}

/// Every node of `part` stands in `whole` too.
pub open spec fn part_of(part: Tree, whole: Tree) -> bool {
    forall|path: Seq<char>| #[trigger]
        part.contains_key(path) ==> whole.contains_key(path) && whole[path] == part[path]
}

/// What a path leads to in a part of a tree, it leads to in the whole.
proof fn lemma_resolve_part(part: Tree, whole: Tree, path: Seq<char>, hops: nat)
    requires
        part_of(part, whole),
        resolve(part, path, hops) is Some,
    ensures
        resolve(whole, path, hops) == resolve(part, path, hops),
    decreases hops,
{
    assert(part.contains_key(path));
    match part[path] {
        Node::Link { target, .. } => {
            lemma_resolve_part(part, whole, target, (hops - 1) as nat);
        },
        _ => {},
    }
}

/// Vacating a destination takes nodes away and adds none, leaves the
/// destination empty, and changes nothing that is not at or below it.
proof fn lemma_vacated(tree: Tree, destination: Seq<char>)
    requires
        vacated(tree, destination) is Some,
    ensures
        part_of(vacated(tree, destination)->0, tree),
        !vacated(tree, destination)->0.contains_key(destination),
        same_outside(vacated(tree, destination)->0, tree, destination),
{
}

/// A reconciliation succeeds exactly when the destination is absent, a
/// link, a file or a directory and, once it is vacated, the source leads
/// to a file or a directory. The destination is then a link to exactly the
/// source; where a directory stood, nothing below it is left; and nothing
/// else in the tree has changed.
pub proof fn law_destination_replaced(tree: Tree, source: Seq<char>, destination: Seq<char>)
    ensures
        ({
            let after = reconciled(tree, source, destination);
            let kind = match vacated(tree, destination) {
                Some(base) => reach(base, source),
                None => None,
            };
            &&& after.result is Ok <==> kind == Some(Node::File) || kind == Some(Node::Dir)
            &&& after.result is Ok ==> {
                &&& after.tree.contains_key(destination)
                &&& after.tree[destination] == (Node::Link {
                    target: source,
                    dir: kind == Some(Node::Dir),
                })
                &&& tree.contains_key(destination) && tree[destination] is Dir ==> forall|
                    path: Seq<char>,
                |
                    within(path, destination) && path != destination
                        ==> !after.tree.contains_key(path)
                &&& same_outside(after.tree, tree, destination)
            }
        }),
{
    if vacated(tree, destination) is Some {
        lemma_vacated(tree, destination);
    }
}

/// A reconciliation that fails leaves the destination empty, unless what
/// stands there is of a kind that it refuses: then it changes nothing, and
/// reports the destination as invalid.
pub proof fn law_destination_left(tree: Tree, source: Seq<char>, destination: Seq<char>)
    requires
        reconciled(tree, source, destination).result is Err,
    ensures
        ({
            let after = reconciled(tree, source, destination);
            if tree.contains_key(destination) && tree[destination] is Other {
                after.tree == tree && after.result == Err::<(), SyncErrorView>(
                    invalid_path(destination),
                )
            } else {
                !after.tree.contains_key(destination)
            }
        }),
{
    if vacated(tree, destination) is Some {
        lemma_vacated(tree, destination);
    }
}

/// Where the source leads nowhere and the destination is absent, a link, a
/// file or a directory, the reconciliation reports the source as missing
/// and leaves the destination empty.
pub proof fn law_missing_source(tree: Tree, source: Seq<char>, destination: Seq<char>)
    requires
        reach(tree, source) is None,
        vacated(tree, destination) is Some,
    ensures
        reconciled(tree, source, destination).result == Err::<(), SyncErrorView>(
            SyncErrorView::SourceMissing(source),
        ),
        !reconciled(tree, source, destination).tree.contains_key(destination),
{
    let base = vacated(tree, destination)->0;
    lemma_vacated(tree, destination);
    if reach(base, source) is Some {
        lemma_resolve_part(base, tree, source, max_hops());
    }
}

/// A reconciliation that succeeds leaves a link of the type of its source:
/// a directory link where the source leads to a directory, a file link
/// where it leads to a file.
pub proof fn law_link_type(tree: Tree, source: Seq<char>, destination: Seq<char>)
    requires
        reconciled(tree, source, destination).result is Ok,
    ensures
        reach(tree, source) == Some(Node::Dir) || reach(tree, source) == Some(Node::File),
        reconciled(tree, source, destination).tree[destination] == (Node::Link {
            target: source,
            dir: reach(tree, source) == Some(Node::Dir),
        }),
{
    let base = vacated(tree, destination)->0;
    lemma_vacated(tree, destination);
    lemma_resolve_part(base, tree, source, max_hops());
}

/// Reconciling one pair a second time changes neither the tree nor what is
/// reported.
pub proof fn law_reconcile_twice(tree: Tree, source: Seq<char>, destination: Seq<char>)
    ensures
        reconciled(reconciled(tree, source, destination).tree, source, destination) == reconciled(
            tree,
            source,
            destination,
        ),
{
    let once = reconciled(tree, source, destination);
    if vacated(tree, destination) is Some {
        let base = vacated(tree, destination)->0;
        lemma_vacated(tree, destination);
        if once.result is Ok {
            assert(once.tree.remove(destination) =~= base);
        }
    }
}

/// Neither path is the other or is written below it.
pub open spec fn unrelated(one: Seq<char>, other: Seq<char>) -> bool {
    !within(one, other) && !within(other, one)
}

/// `path` is unrelated to the destination of each of the first `count`
/// pairs.
pub open spec fn apart_from(path: Seq<char>, pairs: Seq<PairView>, count: int) -> bool {
    forall|i: int|
        0 <= i < count && i < pairs.len() ==> unrelated(path, #[trigger] pairs[i].destination)
}

/// Two roots that have a path in common are related.
proof fn lemma_within_common(path: Seq<char>, one: Seq<char>, other: Seq<char>)
    requires
        within(path, one),
        within(path, other),
    ensures
        !unrelated(one, other),
{
    if path != one && path != other {
        let short = if one.len() <= other.len() {
            one
        } else {
            other
        };
        let long = if one.len() <= other.len() {
            other
        } else {
            one
        };
        assert(path.subrange(0, short.len() as int) == short);
        assert(path.subrange(0, long.len() as int) == long);
        assert forall|i: int| 0 <= i < long.len() implies long[i] == path[i] by {
            assert(path.subrange(0, long.len() as int)[i] == path[i]);
        }
        assert forall|i: int| 0 <= i < short.len() implies short[i] == path[i] by {
            assert(path.subrange(0, short.len() as int)[i] == path[i]);
        }
        if short.len() == long.len() {
            assert(short =~= long);
        } else {
            assert(long.subrange(0, short.len() as int) =~= short);
            assert(within(long, short));
        }
    }
}

/// A reconciliation changes nothing that is not at or below its
/// destination.
pub proof fn lemma_reconciled_frame(tree: Tree, source: Seq<char>, destination: Seq<char>)
    ensures
        same_outside(reconciled(tree, source, destination).tree, tree, destination),
{
    if vacated(tree, destination) is Some {
        lemma_vacated(tree, destination);
    }
}

/// A run changes nothing at or below a path that is unrelated to every
/// destination it gets to.
proof fn lemma_ran_frame(tree: Tree, pairs: Seq<PairView>, from: nat, root: Seq<char>)
    requires
        apart_from(root, pairs, pairs.len() as int),
    ensures
        same_within(ran_from(tree, pairs, from).tree, tree, root),
    decreases pairs.len() - from,
{
    if from < pairs.len() {
        let pair = pairs[from as int];
        let one = reconciled(tree, pair.source, pair.destination);
        lemma_reconciled_frame(tree, pair.source, pair.destination);
        assert forall|path: Seq<char>| within(path, root) implies same_at(one.tree, tree, path) by {
            if within(path, pair.destination) {
                lemma_within_common(path, root, pair.destination);
            }
        }
        if one.result is Ok {
            lemma_ran_frame(one.tree, pairs, from + 1, root);
        }
    }
}

/// A run over the first `count` pairs, if it succeeds, is the beginning of
/// the run over them all; if it fails, it is the whole of it.
proof fn lemma_ran_prefix(tree: Tree, pairs: Seq<PairView>, count: int, from: nat)
    requires
        from <= count <= pairs.len(),
    ensures
        ({
            let head = ran_from(tree, pairs.take(count), from);
            ran_from(tree, pairs, from) == if head.result is Err {
                head
            } else {
                ran_from(head.tree, pairs, count as nat)
            }
        }),
    decreases count - from,
{
    if from < count {
        let pair = pairs[from as int];
        assert(pairs.take(count)[from as int] == pair);
        let one = reconciled(tree, pair.source, pair.destination);
        if one.result is Ok {
            lemma_ran_prefix(one.tree, pairs, count, from + 1);
        }
    }
}

/// Where the pairs before the one at `failing` reconcile and that one
/// fails, the run ends there: it reports that failure and leaves the tree
/// as that reconciliation left it, whatever pairs come later. Of a later
/// pair whose destination is unrelated to those of the pairs up to the
/// failing one, nothing at or below the destination has changed.
pub proof fn law_fail_fast(tree: Tree, pairs: Seq<PairView>, failing: int)
    requires
        0 <= failing < pairs.len(),
        ran(tree, pairs.take(failing)).result is Ok,
        reconciled(
            ran(tree, pairs.take(failing)).tree,
            pairs[failing].source,
            pairs[failing].destination,
        ).result is Err,
    ensures
        ran(tree, pairs) == reconciled(
            ran(tree, pairs.take(failing)).tree,
            pairs[failing].source,
            pairs[failing].destination,
        ),
        forall|later: int|
            failing < later < pairs.len() && apart_from(
                #[trigger] pairs[later].destination,
                pairs,
                failing + 1,
            ) ==> same_within(ran(tree, pairs).tree, tree, pairs[later].destination),
{
    let head = pairs.take(failing);
    let before = ran(tree, head).tree;
    let pair = pairs[failing];
    lemma_ran_prefix(tree, pairs, failing, 0);
    assert forall|later: int|
        failing < later < pairs.len() && apart_from(
            #[trigger] pairs[later].destination,
            pairs,
            failing + 1,
        ) implies same_within(ran(tree, pairs).tree, tree, pairs[later].destination) by {
        let root = pairs[later].destination;
        assert forall|i: int| 0 <= i < head.len() implies unrelated(
            root,
            #[trigger] head[i].destination,
        ) by {
            assert(head[i] == pairs[i]);
        }
        lemma_ran_frame(tree, head, 0, root);
        lemma_reconciled_frame(before, pair.source, pair.destination);
        assert forall|path: Seq<char>| within(path, root) implies same_at(
            ran(tree, pairs).tree,
            tree,
            path,
        ) by {
            if within(path, pair.destination) {
                lemma_within_common(path, root, pair.destination);
            }
        }
    }
}

/// `path` is at or below the destination of one of the pairs.
pub open spec fn touched(pairs: Seq<PairView>, path: Seq<char>) -> bool {
    exists|j: int| 0 <= j < pairs.len() && within(path, #[trigger] pairs[j].destination)
}

/// Following links from `path`, at most `hops` of them, never leads to or
/// below a destination of the pairs.
pub open spec fn steers_clear(tree: Tree, path: Seq<char>, hops: nat, pairs: Seq<PairView>) -> bool
    decreases hops,
{
    &&& !touched(pairs, path)
    &&& tree.contains_key(path) && tree[path] is Link && hops > 0 ==> steers_clear(
        tree,
        tree[path]->target,
        (hops - 1) as nat,
        pairs,
    )
}

/// The pairs do not get in each other's way: no destination is another
/// one or is written below it, and no source is, or leads through, a path
/// at or below a destination.
pub open spec fn independent(tree: Tree, pairs: Seq<PairView>) -> bool {
    &&& forall|i: int, j: int|
        0 <= i < j < pairs.len() ==> unrelated(
            #[trigger] pairs[i].destination,
            #[trigger] pairs[j].destination,
        )
    &&& forall|i: int|
        0 <= i < pairs.len() ==> steers_clear(tree, #[trigger] pairs[i].source, max_hops(), pairs)
}

/// The two trees have the same at every path that is not at or below a
/// destination of the pairs.
pub open spec fn same_untouched(one: Tree, other: Tree, pairs: Seq<PairView>) -> bool {
    forall|path: Seq<char>| !touched(pairs, path) ==> same_at(one, other, path)
}

/// The pair is in place: its source leads to a file or a directory in
/// `origin`, and its destination is, in `tree`, the link to it of that type.
pub open spec fn in_place(tree: Tree, origin: Tree, pair: PairView) -> bool {
    &&& reach(origin, pair.source) == Some(Node::File) || reach(origin, pair.source) == Some(
        Node::Dir,
    )
    &&& tree.contains_key(pair.destination)
    &&& tree[pair.destination] == (Node::Link {
        target: pair.source,
        dir: reach(origin, pair.source) == Some(Node::Dir),
    })
}

/// The first `count` pairs are in place.
pub open spec fn settled(tree: Tree, origin: Tree, pairs: Seq<PairView>, count: nat) -> bool {
    forall|i: int| 0 <= i < count && i < pairs.len() ==> in_place(tree, origin, #[trigger] pairs[i])
}

/// The index of the pair at which the run from `from` on fails, or the
/// number of pairs where it does not fail.
pub open spec fn halt(tree: Tree, pairs: Seq<PairView>, from: nat) -> nat
    decreases pairs.len() - from,
{
    if from >= pairs.len() {
        pairs.len()
    } else {
        let one = reconciled(tree, pairs[from as int].source, pairs[from as int].destination);
        if one.result is Err {
            from
        } else {
            halt(one.tree, pairs, from + 1)
        }
    }
}

/// Where two trees differ only at and below destinations, a path that
/// steers clear of them leads to the same in both.
proof fn lemma_resolve_untouched(
    one: Tree,
    other: Tree,
    path: Seq<char>,
    hops: nat,
    pairs: Seq<PairView>,
)
    requires
        same_untouched(one, other, pairs),
        steers_clear(one, path, hops, pairs),
    ensures
        resolve(other, path, hops) == resolve(one, path, hops),
    decreases hops,
{
    assert(same_at(one, other, path));
    if one.contains_key(path) && one[path] is Link && hops > 0 {
        lemma_resolve_untouched(one, other, one[path]->target, (hops - 1) as nat, pairs);
    }
}

/// One reconciliation of a pair of an independent list, on a tree that
/// differs from the tree at the start only at and below destinations: the
/// source leads to what it led to at the start, the tree still differs from
/// that one only at and below destinations, and each other pair's
/// destination is as it was.
proof fn lemma_independent_step(origin: Tree, pairs: Seq<PairView>, tree: Tree, at: int)
    requires
        independent(origin, pairs),
        same_untouched(tree, origin, pairs),
        0 <= at < pairs.len(),
    ensures
        ({
            let pair = pairs[at];
            let one = reconciled(tree, pair.source, pair.destination);
            &&& same_untouched(one.tree, origin, pairs)
            &&& vacated(tree, pair.destination) matches Some(base) ==> reach(base, pair.source)
                == reach(origin, pair.source)
            &&& forall|i: int|
                0 <= i < pairs.len() && i != at ==> same_at(
                    one.tree,
                    tree,
                    #[trigger] pairs[i].destination,
                )
        }),
{
    let pair = pairs[at];
    let one = reconciled(tree, pair.source, pair.destination);
    lemma_reconciled_frame(tree, pair.source, pair.destination);
    assert forall|path: Seq<char>| !touched(pairs, path) implies same_at(
        one.tree,
        origin,
        path,
    ) by {
        assert(!within(path, pairs[at].destination));
        assert(same_at(tree, origin, path));
    }
    if vacated(tree, pair.destination) is Some {
        let base = vacated(tree, pair.destination)->0;
        lemma_vacated(tree, pair.destination);
        assert forall|path: Seq<char>| !touched(pairs, path) implies same_at(
            origin,
            base,
            path,
        ) by {
            assert(!within(path, pairs[at].destination));
            assert(same_at(tree, origin, path));
        }
        lemma_resolve_untouched(origin, base, pair.source, max_hops(), pairs);
    }
    assert forall|i: int| 0 <= i < pairs.len() && i != at implies same_at(
        one.tree,
        tree,
        #[trigger] pairs[i].destination,
    ) by {
        if i < at {
            assert(unrelated(pairs[i].destination, pairs[at].destination));
        } else {
            assert(unrelated(pairs[at].destination, pairs[i].destination));
        }
    }
}

/// A run of an independent list from `from` on, where the pairs before are
/// in place: when it halts, the pairs before the halt are in place, the
/// tree differs from the one at the start only at and below destinations, and
/// the pair it halted at, if any, fails again in the same way and changes
/// nothing.
proof fn lemma_first_run(origin: Tree, pairs: Seq<PairView>, tree: Tree, from: nat)
    requires
        independent(origin, pairs),
        same_untouched(tree, origin, pairs),
        from <= pairs.len(),
        settled(tree, origin, pairs, from),
    ensures
        ({
            let out = ran_from(tree, pairs, from);
            let stop = halt(tree, pairs, from);
            &&& from <= stop <= pairs.len()
            &&& same_untouched(out.tree, origin, pairs)
            &&& settled(out.tree, origin, pairs, stop)
            &&& out.result is Ok <==> stop == pairs.len()
            &&& stop == pairs.len() ==> out.result == Ok::<(), SyncErrorView>(())
            &&& stop < pairs.len() ==> reconciled(
                out.tree,
                pairs[stop as int].source,
                pairs[stop as int].destination,
            ) == out
        }),
    decreases pairs.len() - from,
{
    if from < pairs.len() {
        let pair = pairs[from as int];
        let one = reconciled(tree, pair.source, pair.destination);
        lemma_independent_step(origin, pairs, tree, from as int);
        assert forall|i: int| 0 <= i < from implies in_place(
            one.tree,
            origin,
            #[trigger] pairs[i],
        ) by {
            assert(in_place(tree, origin, pairs[i]));
            assert(same_at(one.tree, tree, pairs[i].destination));
        }
        if one.result is Err {
            law_reconcile_twice(tree, pair.source, pair.destination);
        } else {
            assert(in_place(one.tree, origin, pair));
            lemma_first_run(origin, pairs, one.tree, from + 1);
        }
    }
}

/// A run of an independent list on a tree in which the first `stop` pairs
/// are in place and the pair after them, if any, fails without a change:
/// the run changes nothing and reports that failure, or success where
/// every pair is in place.
proof fn lemma_second_run(origin: Tree, pairs: Seq<PairView>, tree: Tree, from: nat, stop: nat)
    requires
        independent(origin, pairs),
        same_untouched(tree, origin, pairs),
        from <= stop <= pairs.len(),
        settled(tree, origin, pairs, stop),
        stop < pairs.len() ==> {
            let last = reconciled(tree, pairs[stop as int].source, pairs[stop as int].destination);
            last.result is Err && last.tree == tree
        },
    ensures
        ran_from(tree, pairs, from).tree == tree,
        ran_from(tree, pairs, from).result == if stop < pairs.len() {
            reconciled(tree, pairs[stop as int].source, pairs[stop as int].destination).result
        } else {
            Ok(())
        },
    decreases stop - from,
{
    if from < stop {
        let pair = pairs[from as int];
        let one = reconciled(tree, pair.source, pair.destination);
        lemma_independent_step(origin, pairs, tree, from as int);
        assert(in_place(tree, origin, pair));
        assert(one.tree =~= tree);
        lemma_second_run(origin, pairs, tree, from + 1, stop);
    }
}

/// After a run over an independent list of pairs that succeeds, every
/// destination is a link to exactly its source, of the type that the
/// source led to before the run.
pub proof fn law_run_links_all(tree: Tree, pairs: Seq<PairView>)
    requires
        independent(tree, pairs),
        ran(tree, pairs).result is Ok,
    ensures
        forall|i: int|
            0 <= i < pairs.len() ==> in_place(ran(tree, pairs).tree, tree, #[trigger] pairs[i]),
{
    lemma_first_run(tree, pairs, tree, 0);
}

/// A second run over an independent list of pairs leaves the tree as the
/// first run left it, and reports what the first run reported.
pub proof fn law_run_twice(tree: Tree, pairs: Seq<PairView>)
    requires
        independent(tree, pairs),
    ensures
        ran(ran(tree, pairs).tree, pairs) == ran(tree, pairs),
{
    let once = ran(tree, pairs);
    let stop = halt(tree, pairs, 0);
    lemma_first_run(tree, pairs, tree, 0);
    lemma_second_run(tree, pairs, once.tree, 0, stop);
}

} // verus!
