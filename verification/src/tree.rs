//! What a whole walk yields: the order of a walk over a tree, and the proof
//! that a walk that is handed the directories of the tree one at a time
//! yields the files in that order.

use vstd::prelude::*;
use crate::treewalk::EntryView;
use crate::walk::{
    descent, lemma_selected_in_range, patterns_in, rel_or_empty, selected, visited, EntryClass,
    PendingView, WalkView,
};

verus! {

/// A directory with everything below it, as a walk finds it.
pub struct TreeView {
    /// The listing of the directory.
    pub listing: Seq<EntryView>,
    /// The text of its ignore file, where it has one.
    pub ignore_text: Option<Seq<char>>,
    /// For each entry of the listing that is a directory, that directory;
    /// the other places are not looked at.
    pub below: Seq<TreeView>,
}

/// Whether every listing of the tree has a place in `below` for each entry.
pub open spec fn tree_wf(tree: TreeView) -> bool
    decreases tree,
{
    &&& tree.below.len() == tree.listing.len()
    &&& forall|i: int| 0 <= i < tree.below.len() ==> tree_wf(#[trigger] tree.below[i])
}

/// The places of the subdirectories of `tree` that a walk descends into.
pub open spec fn descents_of(tree: TreeView, at: PendingView, filtering: bool) -> Seq<int> {
    selected(
        tree.listing,
        tree.listing.len(),
        EntryClass::Directory,
        rel_or_empty(at.rel),
        patterns_in(filtering, at.patterns, tree.ignore_text),
        filtering,
    )
}

/// The file paths of the directory `tree` itself that a walk yields: its
/// ignore files, then its other files.
pub open spec fn own_files(tree: TreeView, at: PendingView, filtering: bool) -> Seq<Seq<char>> {
    let patterns = patterns_in(filtering, at.patterns, tree.ignore_text);
    let rel = rel_or_empty(at.rel);
    let n = tree.listing.len();
    selected(tree.listing, n, EntryClass::IgnoreFile, rel, patterns, filtering).map_values(
        |i: int| tree.listing[i].path,
    ) + selected(tree.listing, n, EntryClass::RegularFile, rel, patterns, filtering).map_values(
        |i: int| tree.listing[i].path,
    )
}

/// The subdirectory at place `i` of `tree`, as the walk reaches it.
pub open spec fn child_at(tree: TreeView, at: PendingView, filtering: bool, i: int) -> PendingView {
    descent(
        tree.listing,
        i,
        filtering,
        rel_or_empty(at.rel),
        patterns_in(filtering, at.patterns, tree.ignore_text),
    )
}

/// The file paths that a walk of `tree` yields, in order: the files of the
/// directory itself, then what the walk of each subdirectory yields, the
/// subdirectories in the order of the listing.
pub open spec fn yields(tree: TreeView, at: PendingView, filtering: bool) -> Seq<Seq<char>>
    decreases tree, 1nat, 0nat,
{
    own_files(tree, at, filtering) + yields_below(tree, at, filtering, 0)
}

/// What the walks of the subdirectories from the `k`-th on yield.
pub open spec fn yields_below(tree: TreeView, at: PendingView, filtering: bool, k: nat) -> Seq<
    Seq<char>,
>
    decreases tree, 0nat, descents_of(tree, at, filtering).len() - k,
{
    let dirs = descents_of(tree, at, filtering);
    if k >= dirs.len() || !(0 <= dirs[k as int] < tree.below.len()) {
        Seq::empty()
    } else {
        yields(tree.below[dirs[k as int]], child_at(tree, at, filtering, dirs[k as int]), filtering)
            + yields_below(tree, at, filtering, k + 1)
    }
}

/// The walk after it has been handed `tree` and everything below it, one
/// directory at a time, each when it is next in line.
pub open spec fn run(walk: WalkView, tree: TreeView) -> WalkView
    decreases tree, 1nat, 0nat,
{
    run_below(visited(walk, tree.listing, tree.ignore_text), tree, walk.queue[0], 0)
}

/// The walk after it has been handed the subdirectories from the `k`-th on.
pub open spec fn run_below(walk: WalkView, tree: TreeView, at: PendingView, k: nat) -> WalkView
    decreases tree, 0nat, descents_of(tree, at, walk.filtering).len() - k,
{
    let dirs = descents_of(tree, at, walk.filtering);
    if k >= dirs.len() || !(0 <= dirs[k as int] < tree.below.len()) {
        walk
    } else {
        let after = run(walk, tree.below[dirs[k as int]]);
        if after.filtering == walk.filtering {
            run_below(after, tree, at, k + 1)
        } else {
            walk
        }
    }
}

/// A walk that is handed a tree, each directory when it is next in line,
/// yields the files of the tree in the order of `yields` after what it had
/// yielded, and is left with the directories that were waiting behind the
/// tree.
pub proof fn lemma_run(walk: WalkView, tree: TreeView)
    requires
        walk.queue.len() > 0,
        tree_wf(tree),
    ensures
        run(walk, tree) == (WalkView {
            filtering: walk.filtering,
            queue: walk.queue.drop_first(),
            yielded: walk.yielded + yields(tree, walk.queue[0], walk.filtering),
        }),
    decreases tree, 1nat, 0nat,
{
    let at = walk.queue[0];
    let filtering = walk.filtering;
    let first = visited(walk, tree.listing, tree.ignore_text);
    let dirs = descents_of(tree, at, filtering);
    assert(dirs.subrange(0, dirs.len() as int) =~= dirs);
    assert(first.queue =~= dirs.subrange(0, dirs.len() as int).map_values(
        |i: int| child_at(tree, at, filtering, i),
    ) + walk.queue.drop_first());
    lemma_run_below(first, tree, at, 0, walk.queue.drop_first());
    assert(first.yielded == walk.yielded + own_files(tree, at, filtering));
    assert(walk.yielded + own_files(tree, at, filtering) + yields_below(tree, at, filtering, 0)
        =~= walk.yielded + yields(tree, at, filtering));
}

/// The same for the subdirectories of a directory from the `k`-th on: a
/// walk that has them next in line, before `rest`, yields what their walks
/// yield and is left with `rest`.
pub proof fn lemma_run_below(
    walk: WalkView,
    tree: TreeView,
    at: PendingView,
    k: nat,
    rest: Seq<PendingView>,
)
    requires
        tree_wf(tree),
        k <= descents_of(tree, at, walk.filtering).len(),
        walk.queue == descents_of(tree, at, walk.filtering).subrange(
            k as int,
            descents_of(tree, at, walk.filtering).len() as int,
        ).map_values(|i: int| child_at(tree, at, walk.filtering, i)) + rest,
    ensures
        run_below(walk, tree, at, k) == (WalkView {
            filtering: walk.filtering,
            queue: rest,
            yielded: walk.yielded + yields_below(tree, at, walk.filtering, k),
        }),
    decreases tree, 0nat, descents_of(tree, at, walk.filtering).len() - k,
{
    let filtering = walk.filtering;
    let dirs = descents_of(tree, at, filtering);
    lemma_selected_in_range(
        tree.listing,
        tree.listing.len(),
        EntryClass::Directory,
        rel_or_empty(at.rel),
        patterns_in(filtering, at.patterns, tree.ignore_text),
        filtering,
    );
    let ahead = dirs.subrange(k as int, dirs.len() as int).map_values(
        |i: int| child_at(tree, at, filtering, i),
    );
    if k >= dirs.len() {
        assert(ahead =~= Seq::<PendingView>::empty());
        assert(walk.queue =~= rest);
        assert(walk.yielded + yields_below(tree, at, filtering, k) =~= walk.yielded);
    } else {
        let d = dirs[k as int];
        assert(0 <= d < tree.below.len());
        let child = tree.below[d];
        assert(tree_wf(child));
        assert(walk.queue[0] == ahead[0]);
        assert(ahead[0] == child_at(tree, at, filtering, d));
        lemma_run(walk, child);
        let after = run(walk, child);
        assert(walk.queue.drop_first() =~= dirs.subrange(k as int + 1, dirs.len() as int).map_values(
            |i: int| child_at(tree, at, filtering, i),
        ) + rest);
        lemma_run_below(after, tree, at, k + 1, rest);
        assert(walk.yielded + yields(child, child_at(tree, at, filtering, d), filtering)
            + yields_below(tree, at, filtering, k + 1) =~= walk.yielded + yields_below(
            tree,
            at,
            filtering,
            k,
        ));
    }
}

} // verus!
