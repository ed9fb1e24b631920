//! The live nodes of one region tree taken together, and what holds of them
//! whatever is reserved and given back.
//!
//! A node is found under its path: the ranges that lead to it from the root.
//! Reserving a range adds the node for it, giving a node back removes it, and
//! neither disturbs what ties every other node to its parent. So a root keeps
//! ranges reserved for as long as any node below it lives, and is not
//! deregistered before.
//!
//! All of this is said of one tree. Two trees are told apart by the numbers
//! that their roots got when they were made, and a node goes back only into
//! the tree whose number it has.

use crate::memory_region::{
    count_before, in_bounds, lemma_count_before_bounds, meets_any, overlaps, position,
    LocalRemoteMR, MemoryRegion, MemoryRegionView,
};
use std::ops::Range;
use vstd::prelude::*;

verus! {

/// The path under which the root of a tree is found.
pub open spec fn root_path() -> Seq<Range<usize>> {
    Seq::empty()
}

/// Each live node is found under its own path; the node under the empty path
/// is a root; every other live node was cut out of the live node under the
/// path before it, which holds the node's range reserved.
pub open spec fn sound<T: LocalRemoteMR>(
    tree: Map<Seq<Range<usize>>, MemoryRegionView<T>>,
) -> bool {
    forall|path: Seq<Range<usize>>| #[trigger]
        tree.contains_key(path) ==> {
            &&& tree[path].path == path
            &&& path.len() == 0 ==> tree[path].kind is Root
            &&& path.len() > 0 ==> {
                &&& tree.contains_key(path.drop_last())
                &&& tree[path].is_child_of(tree[path.drop_last()])
                &&& tree[path.drop_last()].reserved.contains(path.last())
            }
        }
}

/// The tree after `range` was reserved inside the node `parent`: the parent
/// holds the range, and the node for the range lives.
pub open spec fn tree_after_slice<T: LocalRemoteMR>(
    tree: Map<Seq<Range<usize>>, MemoryRegionView<T>>,
    parent: MemoryRegionView<T>,
    range: Range<usize>,
) -> Map<Seq<Range<usize>>, MemoryRegionView<T>> {
    tree.insert(
        parent.path,
        parent.with_reserved(
            parent.reserved.insert(count_before(parent.reserved, range.start), range),
        ),
    ).insert(parent.path.push(range), parent.child(range))
}

/// The tree after the node `child` was given back to `parent`: the parent
/// holds its range no more, and the node has left.
pub open spec fn tree_after_release<T: LocalRemoteMR>(
    tree: Map<Seq<Range<usize>>, MemoryRegionView<T>>,
    parent: MemoryRegionView<T>,
    child: MemoryRegionView<T>,
) -> Map<Seq<Range<usize>>, MemoryRegionView<T>> {
    tree.insert(
        parent.path,
        parent.with_reserved(
            parent.reserved.remove(position(parent.reserved, child.range_in_parent())),
        ),
    ).remove(child.path)
}

/// Trees are told apart by their numbers: a node was cut out of no node of a
/// tree with another number, so `release` refuses it there.
pub proof fn lemma_trees_apart<T: LocalRemoteMR>(
    child: MemoryRegionView<T>,
    stranger: MemoryRegionView<T>,
)
    requires
        child.tree_id != stranger.tree_id,
    ensures
        !child.is_child_of(stranger),
{
}

/// In a sound tree every live node has the number of the root.
pub proof fn lemma_one_number<T: LocalRemoteMR>(
    tree: Map<Seq<Range<usize>>, MemoryRegionView<T>>,
    path: Seq<Range<usize>>,
)
    requires
        sound(tree),
        tree.contains_key(path),
    ensures
        tree.contains_key(root_path()),
        tree[path].tree_id == tree[root_path()].tree_id,
    decreases path.len(),
{
    if path.len() == 0 {
        assert(path =~= root_path());
    } else {
        lemma_one_number(tree, path.drop_last());
    }
}

/// A root with nothing reserved inside it is a sound tree by itself.
pub proof fn lemma_root_alone<T: LocalRemoteMR>(root: MemoryRegion<T>)
    requires
        root.wf(),
        root@.kind is Root,
    ensures
        sound(Map::<Seq<Range<usize>>, MemoryRegionView<T>>::empty().insert(root_path(), root@)),
{
    let tree = Map::<Seq<Range<usize>>, MemoryRegionView<T>>::empty().insert(root_path(), root@);
    assert forall|path: Seq<Range<usize>>| #[trigger] tree.contains_key(path) implies path
        == root_path() by {}
    assert(root@.path =~= root_path());
}

/// Root retention: while any node below the root lives, the root lives too
/// and holds a range reserved, so that `deregister` hands it back unchanged.
pub proof fn lemma_root_retention<T: LocalRemoteMR>(
    tree: Map<Seq<Range<usize>>, MemoryRegionView<T>>,
    path: Seq<Range<usize>>,
)
    requires
        sound(tree),
        tree.contains_key(path),
        path.len() > 0,
    ensures
        tree.contains_key(root_path()),
        tree[root_path()].kind is Root,
        tree[root_path()].reserved.len() > 0,
        !tree[root_path()].may_deregister(),
    decreases path.len(),
{
    let before = path.drop_last();
    assert(tree.contains_key(before));
    if before.len() == 0 {
        assert(before =~= root_path());
        assert(tree[before].reserved.contains(path.last()));
    } else {
        lemma_root_retention(tree, before);
    }
}

/// Every live node but a leaf is kept as the root is: a node that has a live
/// node below it holds a range reserved, and `release` refuses it.
pub proof fn lemma_parent_retention<T: LocalRemoteMR>(
    tree: Map<Seq<Range<usize>>, MemoryRegionView<T>>,
    path: Seq<Range<usize>>,
)
    requires
        sound(tree),
        tree.contains_key(path),
        path.len() > 0,
    ensures
        tree.contains_key(path.drop_last()),
        tree[path.drop_last()].reserved.len() > 0,
{
    assert(tree[path.drop_last()].reserved.contains(path.last()));
}

/// Reserving a range keeps the tree sound. The node that `slice` returns is
/// new: no live node had its path.
pub proof fn lemma_slice_keeps_sound<T: LocalRemoteMR>(
    tree: Map<Seq<Range<usize>>, MemoryRegionView<T>>,
    parent: MemoryRegion<T>,
    range: Range<usize>,
)
    requires
        sound(tree),
        parent.wf(),
        tree.contains_key(parent@.path),
        tree[parent@.path] == parent@,
        in_bounds(range, parent@.len),
        !meets_any(parent@.reserved, range),
    ensures
        !tree.contains_key(parent@.path.push(range)),
        sound(tree_after_slice(tree, parent@, range)),
{
    let at = parent@.path;
    let new_at = at.push(range);
    let k = count_before(parent@.reserved, range.start);
    lemma_count_before_bounds(parent@.reserved, range.start);
    let grown = parent@.with_reserved(parent@.reserved.insert(k, range));
    let child = parent@.child(range);
    let after = tree_after_slice(tree, parent@, range);
    assert(new_at.drop_last() =~= at);
    assert(new_at.last() == range);
    if tree.contains_key(new_at) {
        let i = choose|i: int| 0 <= i < parent@.reserved.len() && parent@.reserved[i] == range;
        assert(overlaps(parent@.reserved[i], range));
    }
    assert(child.range_in_parent() == range);
    assert(grown.reserved[k] == range);
    assert forall|path: Seq<Range<usize>>| #[trigger] after.contains_key(path) implies {
        &&& after[path].path == path
        &&& path.len() == 0 ==> after[path].kind is Root
        &&& path.len() > 0 ==> {
            &&& after.contains_key(path.drop_last())
            &&& after[path].is_child_of(after[path.drop_last()])
            &&& after[path.drop_last()].reserved.contains(path.last())
        }
    } by {
        if path == new_at {
            assert(after[at] == grown);
        } else {
            assert(tree.contains_key(path));
            if path.len() > 0 {
                let before = path.drop_last();
                assert(tree.contains_key(before));
                assert(before != new_at);
                if before == at {
                    let i = choose|i: int|
                        0 <= i < parent@.reserved.len() && parent@.reserved[i] == path.last();
                    if i < k {
                        assert(grown.reserved[i] == path.last());
                    } else {
                        assert(grown.reserved[i + 1] == path.last());
                    }
                }
            }
        }
    }
}

/// Giving a node back keeps the tree sound. The node that `release` accepts
/// is the one that the tree holds as the child's parent; nothing lives below
/// the child.
pub proof fn lemma_release_keeps_sound<T: LocalRemoteMR>(
    tree: Map<Seq<Range<usize>>, MemoryRegionView<T>>,
    parent: MemoryRegion<T>,
    child: MemoryRegion<T>,
)
    requires
        sound(tree),
        parent.wf(),
        child.wf(),
        tree.contains_key(parent@.path),
        tree[parent@.path] == parent@,
        tree.contains_key(child@.path),
        tree[child@.path] == child@,
        child@.reserved.len() == 0,
        child@.is_child_of(parent@),
        0 <= position(parent@.reserved, child@.range_in_parent()) < parent@.reserved.len(),
        parent@.reserved[position(parent@.reserved, child@.range_in_parent())]
            == child@.range_in_parent(),
    ensures
        parent@.path == child@.path.drop_last(),
        forall|below: Seq<Range<usize>>|
            below.len() > 0 && below.drop_last() == child@.path ==> !tree.contains_key(below),
        sound(tree_after_release(tree, parent@, child@)),
{
    let at = parent@.path;
    let gone = child@.path;
    let range = child@.range_in_parent();
    let k = position(parent@.reserved, range);
    let shrunk = parent@.with_reserved(parent@.reserved.remove(k));
    let after = tree_after_release(tree, parent@, child@);
    assert(gone.drop_last() =~= at);
    assert(gone.last() == range);
    assert forall|below: Seq<Range<usize>>|
        below.len() > 0 && below.drop_last() == gone implies !tree.contains_key(below) by {
        if tree.contains_key(below) {
            assert(tree[below.drop_last()].reserved.contains(below.last()));
        }
    }
    assert forall|path: Seq<Range<usize>>| #[trigger] after.contains_key(path) implies {
        &&& after[path].path == path
        &&& path.len() == 0 ==> after[path].kind is Root
        &&& path.len() > 0 ==> {
            &&& after.contains_key(path.drop_last())
            &&& after[path].is_child_of(after[path.drop_last()])
            &&& after[path.drop_last()].reserved.contains(path.last())
        }
    } by {
        assert(tree.contains_key(path));
        assert(path != gone);
        if path.len() > 0 {
            let before = path.drop_last();
            assert(tree.contains_key(before));
            assert(before != gone);
            if before == at {
                assert(path =~= before.push(path.last()));
                assert(path.last() != range);
                let i = choose|i: int|
                    0 <= i < parent@.reserved.len() && parent@.reserved[i] == path.last();
                if i < k {
                    assert(shrunk.reserved[i] == path.last());
                } else {
                    assert(shrunk.reserved[i - 1] == path.last());
                }
            }
        }
    }
}

} // verus!
