//! Directories that several registrations share, and how long they live.
//!
//! An entry of debugfs must not be removed before the entries below it. So every registration owns
//! a share of the directory that it is in, and a directory is removed when its last owner lets go
//! of it. [`SharedDirs`] keeps the books for that: the owners of every directory are counted, and
//! letting go of a directory tells which entries are to be removed, in which order.

use crate::call::{frees, removals, Call};
use vstd::prelude::*;

verus! {

/// A directory that is shared.
#[derive(Clone, Copy)]
pub struct Node {
    /// The entry in debugfs.
    pub dentry: usize,
    /// The directory that the entry is in, which the directory owns a share of.
    pub parent: Option<usize>,
    /// The memory that the directory was put in to be shared.
    pub memory: usize,
    /// How many owners the directory has.
    pub owners: usize,
}

/// The directories that are shared, known by their place; `None` for a place that is free.
pub type Nodes = Seq<Option<Node>>;

/// Whether `id` is a directory that has not been removed.
pub open spec fn is_live(nodes: Nodes, id: int) -> bool {
    0 <= id < nodes.len() && nodes[id] is Some
}

/// Whether the directory at `id` is in the directory `parent`.
pub open spec fn is_child(nodes: Nodes, id: int, parent: int) -> bool {
    is_live(nodes, id) && nodes[id]->Some_0.parent is Some && nodes[id]->Some_0.parent->Some_0
        == parent
}

/// How many of the directories are in the directory `parent`.
pub open spec fn children(nodes: Nodes, parent: int) -> nat
    decreases nodes.len(),
{
    if nodes.len() == 0 {
        0
    } else {
        children(nodes.drop_last(), parent) + if is_child(nodes, nodes.len() - 1, parent) {
            1nat
        } else {
            0nat
        }
    }
}

/// How many owners a directory has besides the directories in it.
pub open spec fn outside_owners(nodes: Nodes, id: int) -> int {
    if is_live(nodes, id) {
        nodes[id]->Some_0.owners - children(nodes, id)
    } else {
        0
    }
}

/// Whether every directory has as many outside owners in `after` as in `before`, except that the
/// one at `id` has one fewer, if there is one.
pub open spec fn one_share_fewer(before: Nodes, after: Nodes, id: Option<usize>) -> bool {
    forall|i: int| #[trigger]
        outside_owners(after, i) == outside_owners(before, i) - (if id is Some && id->Some_0 == i {
            1int
        } else {
            0int
        })
}

/// Every directory is in one that is still there, at a place before its own, and has at least one
/// owner, counting every directory in it as an owner.
pub open spec fn nodes_wf(nodes: Nodes) -> bool {
    forall|id: int| #[trigger]
        is_live(nodes, id) ==> {
            &&& nodes[id]->Some_0.owners > 0
            &&& outside_owners(nodes, id) >= 0
            &&& nodes[id]->Some_0.parent matches Some(parent) ==> parent < id && is_live(
                nodes,
                parent as int,
            )
        }
}

/// Whether a directory that is in `parent` can be put at `id`: the place is free or the next one,
/// and comes after that of the parent.
pub open spec fn is_place(nodes: Nodes, id: int, parent: Option<usize>) -> bool {
    &&& 0 <= id <= nodes.len()
    &&& !is_live(nodes, id)
    &&& parent matches Some(up) ==> up < id
}

/// The directories after one more was shared, with one owner, and put at `id`.
pub open spec fn after_share(
    nodes: Nodes,
    id: int,
    dentry: usize,
    parent: Option<usize>,
    memory: usize,
) -> Nodes {
    let node = Some(Node { dentry, parent, memory, owners: 1 });
    if id < nodes.len() {
        nodes.update(id, node)
    } else {
        nodes.push(node)
    }
}

/// The directories after one owner more of `id`.
pub open spec fn after_acquire(nodes: Nodes, id: int) -> Nodes {
    let node = nodes[id]->Some_0;
    nodes.update(id, Some(Node { owners: (node.owners + 1) as usize, ..node }))
}

/// The directories after one owner of `id` has let go. The last owner takes the directory with it,
/// which then lets go of the directory that it is in.
pub open spec fn after_release(nodes: Nodes, id: int) -> Nodes
    decreases id,
{
    if !is_live(nodes, id) {
        nodes
    } else {
        let node = nodes[id]->Some_0;
        if node.owners > 1 {
            nodes.update(id, Some(Node { owners: (node.owners - 1) as usize, ..node }))
        } else {
            let rest = nodes.update(id, None);
            match node.parent {
                Some(parent) if parent < id => after_release(rest, parent as int),
                _ => rest,
            }
        }
    }
}

/// The entries to be removed, in order, when one owner of `id` lets go.
pub open spec fn released(nodes: Nodes, id: int) -> Seq<usize>
    decreases id,
{
    if !is_live(nodes, id) {
        seq![]
    } else {
        let node = nodes[id]->Some_0;
        if node.owners > 1 {
            seq![]
        } else {
            let rest = nodes.update(id, None);
            match node.parent {
                Some(parent) if parent < id => seq![node.dentry] + released(rest, parent as int),
                _ => seq![node.dentry],
            }
        }
    }
}

/// The memory to be freed, in order, when one owner of `id` lets go. All entries have been removed
/// by then, and the memory of a directory is freed after that of the directory that it is in.
pub open spec fn freed(nodes: Nodes, id: int) -> Seq<usize>
    decreases id,
{
    if !is_live(nodes, id) {
        seq![]
    } else {
        let node = nodes[id]->Some_0;
        if node.owners > 1 {
            seq![]
        } else {
            let rest = nodes.update(id, None);
            match node.parent {
                Some(parent) if parent < id => freed(rest, parent as int) + seq![node.memory],
                _ => seq![node.memory],
            }
        }
    }
}

/// The calls to be made when one owner of `id` lets go.
pub open spec fn release_calls(nodes: Nodes, id: int) -> Seq<Call> {
    removals(released(nodes, id)) + frees(freed(nodes, id))
}

/// A directory and all directories above it, from the inside out.
pub open spec fn ancestors(nodes: Nodes, id: int) -> Seq<int>
    decreases id,
{
    if !is_live(nodes, id) {
        seq![]
    } else {
        match nodes[id]->Some_0.parent {
            Some(parent) if parent < id => seq![id] + ancestors(nodes, parent as int),
            _ => seq![id],
        }
    }
}

/// The entries of a directory and of all directories above it, from the inside out.
pub open spec fn path(nodes: Nodes, id: int) -> Seq<usize> {
    ancestors(nodes, id).map_values(|up: int| nodes[up]->Some_0.dentry)
}

/// Changing one directory changes the number of children only for its old and its new parent.
proof fn lemma_children_update(nodes: Nodes, id: int, new: Option<Node>, parent: int)
    requires
        0 <= id < nodes.len(),
    ensures
        children(nodes.update(id, new), parent) == children(nodes, parent) - (if is_child(
            nodes,
            id,
            parent,
        ) {
            1int
        } else {
            0int
        }) + (if is_child(nodes.update(id, new), id, parent) {
            1int
        } else {
            0int
        }),
    decreases nodes.len(),
{
    let changed = nodes.update(id, new);
    let last = nodes.len() - 1;
    if id == last {
        assert(changed.drop_last() =~= nodes.drop_last());
    } else {
        assert(changed.drop_last() =~= nodes.drop_last().update(id, new));
        lemma_children_update(nodes.drop_last(), id, new, parent);
        assert(is_child(changed, last, parent) == is_child(nodes, last, parent));
        assert(is_child(nodes.drop_last(), id, parent) == is_child(nodes, id, parent));
        assert(is_child(changed.drop_last(), id, parent) == is_child(changed, id, parent));
    }
}

/// A directory that nothing is in has no children.
proof fn lemma_no_children(nodes: Nodes, parent: int)
    requires
        forall|id: int| !is_child(nodes, id, parent),
    ensures
        children(nodes, parent) == 0,
    decreases nodes.len(),
{
    if nodes.len() > 0 {
        assert forall|id: int| !is_child(nodes.drop_last(), id, parent) by {
            assert(!is_child(nodes, id, parent));
        }
        lemma_no_children(nodes.drop_last(), parent);
    }
}

/// A directory with a child has a positive number of children.
proof fn lemma_child_counts(nodes: Nodes, id: int, parent: int)
    requires
        is_child(nodes, id, parent),
    ensures
        children(nodes, parent) > 0,
    decreases nodes.len(),
{
    if id < nodes.len() - 1 {
        assert(is_child(nodes.drop_last(), id, parent));
        lemma_child_counts(nodes.drop_last(), id, parent);
    }
}

/// The directories from `id` outwards do not depend on one that was shared later.
proof fn lemma_ancestors_update(nodes: Nodes, id: int, later: int, new: Option<Node>)
    requires
        0 <= id < later < nodes.len(),
    ensures
        ancestors(nodes.update(later, new), id) == ancestors(nodes, id),
        path(nodes.update(later, new), id) == path(nodes, id),
        forall|k: int| 0 <= k < ancestors(nodes, id).len() ==> 0 <= #[trigger] ancestors(nodes, id)[k] <= id,
    decreases id,
{
    let changed = nodes.update(later, new);
    if is_live(nodes, id) {
        match nodes[id]->Some_0.parent {
            Some(parent) if parent < id => {
                lemma_ancestors_update(nodes, parent as int, later, new);
            },
            _ => {},
        }
    }
    assert(path(changed, id) =~= path(nodes, id));
}

/// Once the last owner of a directory has let go, the share that the directory owned is left over.
proof fn lemma_last_release(nodes: Nodes, id: int)
    requires
        nodes_wf(nodes),
        outside_owners(nodes, id) >= 1,
        nodes[id]->Some_0.owners == 1,
    ensures
        nodes_wf(nodes.update(id, None)),
        forall|i: int| #[trigger]
            children(nodes.update(id, None), i) == children(nodes, i) - (if is_child(
                nodes,
                id,
                i,
            ) {
                1int
            } else {
                0int
            }),
        nodes[id]->Some_0.parent matches Some(parent) ==> {
            &&& parent < id
            &&& is_live(nodes, parent as int)
            &&& outside_owners(nodes.update(id, None), parent as int) >= 1
        },
{
    let rest = nodes.update(id, None);
    assert(is_live(nodes, id));
    assert forall|i: int| !is_child(nodes, i, id) by {
        if is_child(nodes, i, id) {
            lemma_child_counts(nodes, i, id);
        }
    }
    assert forall|i: int| #[trigger]
        children(rest, i) == children(nodes, i) - (if is_child(nodes, id, i) {
            1int
        } else {
            0int
        }) by {
        lemma_children_update(nodes, id, None, i);
    }
    assert forall|i: int| #[trigger] is_live(rest, i) implies {
        &&& rest[i]->Some_0.owners > 0
        &&& outside_owners(rest, i) >= 0
        &&& rest[i]->Some_0.parent matches Some(parent) ==> parent < i && is_live(
            rest,
            parent as int,
        )
    } by {
        assert(is_live(nodes, i));
        assert(!is_child(nodes, i, id));
    }
    match nodes[id]->Some_0.parent {
        Some(parent) => {
            assert(is_live(nodes, parent as int));
            assert(children(rest, parent as int) == children(nodes, parent as int) - 1);
        },
        None => {},
    }
}

/// What letting go of a share of `id` does, in terms of `after_release`.
proof fn lemma_release(nodes: Nodes, id: int)
    requires
        nodes_wf(nodes),
        outside_owners(nodes, id) >= 1,
    ensures
        nodes_wf(after_release(nodes, id)),
        after_release(nodes, id).len() == nodes.len(),
        forall|i: int| #[trigger]
            is_live(after_release(nodes, id), i) ==> {
                &&& is_live(nodes, i)
                &&& after_release(nodes, id)[i]->Some_0.dentry == nodes[i]->Some_0.dentry
                &&& after_release(nodes, id)[i]->Some_0.parent == nodes[i]->Some_0.parent
                &&& outside_owners(after_release(nodes, id), i) == outside_owners(nodes, i) - (
                if i == id {
                    1int
                } else {
                    0int
                })
            },
        forall|i: int| #[trigger]
            is_live(nodes, i) && !is_live(after_release(nodes, id), i) ==> i <= id
                && outside_owners(nodes, i) == (if i == id {
                1int
            } else {
                0int
            }),
        released(nodes, id).len() <= ancestors(nodes, id).len(),
        released(nodes, id) == path(nodes, id).take(released(nodes, id).len() as int),
        forall|i: int| #[trigger]
            is_live(nodes, i) ==> (is_live(after_release(nodes, id), i) <==> !ancestors(
                nodes,
                id,
            ).take(released(nodes, id).len() as int).contains(i)),
    decreases id,
{
    let node = nodes[id]->Some_0;
    let after = after_release(nodes, id);
    assert(is_live(nodes, id));
    if node.owners > 1 {
        assert forall|i: int| children(after, i) == children(nodes, i) by {
            lemma_children_update(nodes, id, after[id], i);
        }
        assert forall|i: int| is_live(after, i) == is_live(nodes, i) by {}
        assert(nodes_wf(after)) by {
            assert forall|i: int| #[trigger] is_live(after, i) implies {
                &&& after[i]->Some_0.owners > 0
                &&& outside_owners(after, i) >= 0
                &&& after[i]->Some_0.parent matches Some(parent) ==> parent < i && is_live(
                    after,
                    parent as int,
                )
            } by {
                assert(is_live(nodes, i));
            }
        }
        assert(released(nodes, id) =~= path(nodes, id).take(0));
        assert(ancestors(nodes, id).take(0) =~= Seq::<int>::empty());
    } else {
        let rest = nodes.update(id, None);
        lemma_last_release(nodes, id);
        match node.parent {
            Some(parent) => {
                let up = parent as int;
                lemma_release(rest, up);
                lemma_ancestors_update(nodes, up, id, None);
                let n = released(rest, up).len() as int;
                assert(released(nodes, id) == seq![node.dentry] + released(rest, up));
                assert(ancestors(nodes, id) == seq![id] + ancestors(nodes, up));
                assert(path(nodes, id) =~= seq![node.dentry] + path(nodes, up));
                assert(released(nodes, id) =~= path(nodes, id).take(n + 1));
                assert(ancestors(nodes, id).take(n + 1) =~= seq![id] + ancestors(nodes, up).take(n));
                assert forall|i: int| #[trigger]
                    is_live(nodes, i) && !is_live(after, i) implies i <= id && outside_owners(
                    nodes,
                    i,
                ) == (if i == id {
                    1int
                } else {
                    0int
                }) by {
                    if i != id {
                        assert(is_live(rest, i));
                        assert(children(rest, i) == children(nodes, i) - (if i == up {
                            1int
                        } else {
                            0int
                        }));
                    }
                }
                assert forall|i: int| #[trigger] is_live(nodes, i) implies (is_live(after, i)
                    <==> !ancestors(nodes, id).take(n + 1).contains(i)) by {
                    let gone = ancestors(nodes, up).take(n);
                    if i == id {
                        assert(ancestors(nodes, id).take(n + 1)[0] == id);
                    } else {
                        assert(is_live(rest, i));
                        if gone.contains(i) {
                            let k = choose|k: int| 0 <= k < gone.len() && gone[k] == i;
                            assert(ancestors(nodes, id).take(n + 1)[k + 1] == i);
                        }
                    }
                }
            },
            None => {
                assert(after == rest);
                assert(ancestors(nodes, id) == seq![id]);
                assert(path(nodes, id) =~= seq![node.dentry]);
                assert(released(nodes, id) =~= path(nodes, id).take(1));
                assert(ancestors(nodes, id).take(1) =~= seq![id]);
                assert(seq![id][0] == id);
            },
        }
    }
}

/// One owner more keeps the books in order.
proof fn lemma_acquire(nodes: Nodes, id: int)
    requires
        nodes_wf(nodes),
        is_live(nodes, id),
        nodes[id]->Some_0.owners < usize::MAX,
    ensures
        nodes_wf(after_acquire(nodes, id)),
        forall|i: int| #[trigger]
            outside_owners(after_acquire(nodes, id), i) == outside_owners(nodes, i) + (if i == id {
                1int
            } else {
                0int
            }),
{
    let after = after_acquire(nodes, id);
    assert forall|i: int| children(after, i) == children(nodes, i) by {
        lemma_children_update(nodes, id, after[id], i);
    }
    assert forall|i: int| #[trigger] is_live(after, i) implies {
        &&& after[i]->Some_0.owners > 0
        &&& outside_owners(after, i) >= 0
        &&& after[i]->Some_0.parent matches Some(parent) ==> parent < i && is_live(
            after,
            parent as int,
        )
    } by {
        assert(is_live(nodes, i));
    }
}

/// One directory more keeps the books in order.
proof fn lemma_share(nodes: Nodes, id: int, dentry: usize, parent: Option<usize>, memory: usize)
    requires
        nodes_wf(nodes),
        is_place(nodes, id, parent),
        parent matches Some(up) ==> outside_owners(nodes, up as int) >= 1,
    ensures
        nodes_wf(after_share(nodes, id, dentry, parent, memory)),
        outside_owners(after_share(nodes, id, dentry, parent, memory), id) == 1,
        forall|i: int|
            i != id ==> #[trigger] outside_owners(
                after_share(nodes, id, dentry, parent, memory),
                i,
            ) == outside_owners(nodes, i) - (if parent is Some && parent->Some_0 == i {
                1int
            } else {
                0int
            }),
{
    let after = after_share(nodes, id, dentry, parent, memory);
    assert forall|i: int| !is_child(nodes, i, id) by {
        if is_live(nodes, i) && nodes[i]->Some_0.parent is Some {
            assert(is_live(nodes, nodes[i]->Some_0.parent->Some_0 as int));
        }
    }
    lemma_no_children(nodes, id);
    assert forall|i: int| #[trigger]
        children(after, i) == children(nodes, i) + (if parent is Some && parent->Some_0 == i {
            1int
        } else {
            0int
        }) by {
        if id < nodes.len() {
            lemma_children_update(nodes, id, after[id], i);
        } else {
            assert(after.drop_last() =~= nodes);
        }
    }
    assert forall|i: int| #[trigger] is_live(after, i) implies i == id || is_live(nodes, i) by {}
    assert forall|i: int| is_live(nodes, i) implies #[trigger] is_live(after, i) by {}
    assert forall|i: int| #[trigger] is_live(after, i) implies {
        &&& after[i]->Some_0.owners > 0
        &&& outside_owners(after, i) >= 0
        &&& after[i]->Some_0.parent matches Some(up) ==> up < i && is_live(after, up as int)
    } by {
        assert(children(after, i) >= 0);
        if i != id {
            assert(is_live(nodes, i));
            assert(outside_owners(nodes, i) >= 0);
        }
    }
}

/// Letting go of a share keeps the books in order: the number of outside owners goes down by one
/// for the directory that was let go of, and stays the same for every other one.
pub proof fn law_release_takes_one_owner(nodes: Nodes, id: int, other: int)
    requires
        nodes_wf(nodes),
        outside_owners(nodes, id) >= 1,
    ensures
        nodes_wf(after_release(nodes, id)),
        outside_owners(after_release(nodes, id), other) == outside_owners(nodes, other) - (if other
            == id {
            1int
        } else {
            0int
        }),
{
    lemma_release(nodes, id);
    if is_live(nodes, other) {
        assert(is_live(after_release(nodes, id), other) || !is_live(
            after_release(nodes, id),
            other,
        ));
    } else {
        assert(!is_live(after_release(nodes, id), other));
    }
}

/// As long as someone owns a share of a directory, neither it nor any directory above it is
/// removed, whoever lets go of whatever else.
pub proof fn law_owned_directory_stays(nodes: Nodes, id: int, other: int)
    requires
        nodes_wf(nodes),
        outside_owners(nodes, id) >= 1,
        outside_owners(nodes, other) > (if other == id {
            1int
        } else {
            0int
        }),
    ensures
        is_live(after_release(nodes, id), other),
        ancestors(after_release(nodes, id), other) == ancestors(nodes, other),
        path(after_release(nodes, id), other) == path(nodes, other),
{
    lemma_release(nodes, id);
    assert(is_live(nodes, other));
    lemma_live_path(nodes, after_release(nodes, id), other);
}

/// A directory that is still there has the same directories above it.
proof fn lemma_live_path(nodes: Nodes, after: Nodes, id: int)
    requires
        nodes_wf(after),
        forall|i: int| #[trigger]
            is_live(after, i) ==> {
                &&& is_live(nodes, i)
                &&& after[i]->Some_0.dentry == nodes[i]->Some_0.dentry
                &&& after[i]->Some_0.parent == nodes[i]->Some_0.parent
            },
        is_live(after, id),
    ensures
        ancestors(after, id) == ancestors(nodes, id),
        path(after, id) == path(nodes, id),
    decreases id,
{
    assert(is_live(nodes, id));
    match after[id]->Some_0.parent {
        Some(parent) => {
            lemma_live_path(nodes, after, parent as int);
            assert(path(after, id) =~= seq![after[id]->Some_0.dentry] + path(
                after,
                parent as int,
            ));
            assert(path(nodes, id) =~= seq![nodes[id]->Some_0.dentry] + path(
                nodes,
                parent as int,
            ));
        },
        None => {
            assert(path(after, id) =~= path(nodes, id));
        },
    }
}

/// The entries that are removed are those of a directory and of directories above it, from the
/// inside out: no entry is removed before the entries below it.
pub proof fn law_removed_from_inside_out(nodes: Nodes, id: int)
    requires
        nodes_wf(nodes),
        outside_owners(nodes, id) >= 1,
    ensures
        released(nodes, id).is_prefix_of(path(nodes, id)),
{
    lemma_release(nodes, id);
}

/// The memory that is freed is that of the directories whose entries were removed, the outermost
/// first: the memory of every removed directory is freed once.
pub proof fn law_removed_are_freed(nodes: Nodes, id: int)
    requires
        nodes_wf(nodes),
        outside_owners(nodes, id) >= 1,
    ensures
        freed(nodes, id).len() == released(nodes, id).len() <= ancestors(nodes, id).len(),
        forall|k: int|
            0 <= k < released(nodes, id).len() ==> #[trigger] freed(nodes, id)[released(
                nodes,
                id,
            ).len() - 1 - k] == nodes[ancestors(nodes, id)[k]]->Some_0.memory,
    decreases id,
{
    lemma_release(nodes, id);
    let node = nodes[id]->Some_0;
    assert(is_live(nodes, id));
    if node.owners == 1 {
        let rest = nodes.update(id, None);
        lemma_last_release(nodes, id);
        match node.parent {
            Some(parent) => {
                let up = parent as int;
                law_removed_are_freed(rest, up);
                lemma_ancestors_update(nodes, up, id, None);
                let n = released(nodes, id).len() as int;
                assert forall|k: int| 0 <= k < n implies #[trigger] freed(nodes, id)[n - 1 - k]
                    == nodes[ancestors(nodes, id)[k]]->Some_0.memory by {
                    if k > 0 {
                        let above = ancestors(nodes, up)[k - 1];
                        assert(ancestors(nodes, id)[k] == above);
                        assert(freed(nodes, id)[n - 1 - k] == freed(rest, up)[(n - 1) - 1 - (k
                            - 1)]);
                        assert(rest[above] == nodes[above]);
                    }
                }
            },
            None => {},
        }
    }
}

/// The directories that go are exactly those whose entries are removed.
pub proof fn law_removed_are_gone(nodes: Nodes, id: int, other: int)
    requires
        nodes_wf(nodes),
        outside_owners(nodes, id) >= 1,
        is_live(nodes, other),
    ensures
        is_live(after_release(nodes, id), other) <==> !ancestors(nodes, id).take(
            released(nodes, id).len() as int,
        ).contains(other),
{
    lemma_release(nodes, id);
}

/// Once nobody owns a share of any directory, all of them have been removed.
pub proof fn law_nothing_outlives_its_owners(nodes: Nodes, id: int)
    requires
        nodes_wf(nodes),
        forall|i: int| #[trigger] outside_owners(nodes, i) == 0,
    ensures
        !is_live(nodes, id),
    decreases nodes.len() - id,
{
    if is_live(nodes, id) {
        assert(outside_owners(nodes, id) == 0);
        assert forall|i: int| !is_child(nodes, i, id) by {
            if is_child(nodes, i, id) {
                assert(is_live(nodes, i));
                law_nothing_outlives_its_owners(nodes, i);
            }
        }
        lemma_no_children(nodes, id);
    }
}

/// Letting go of a share that was just acquired leaves everything as it was, and removes nothing.
pub proof fn law_release_undoes_acquire(nodes: Nodes, id: int)
    requires
        is_live(nodes, id),
        0 < nodes[id]->Some_0.owners < usize::MAX,
    ensures
        after_release(after_acquire(nodes, id), id) == nodes,
        released(after_acquire(nodes, id), id) == Seq::<usize>::empty(),
{
    assert(after_release(after_acquire(nodes, id), id) =~= nodes);
}

/// The directories that are taken down when one owner of `id` lets go, from the inside out.
spec fn taken_down(nodes: Nodes, id: int) -> Seq<int>
    decreases id,
{
    if !is_live(nodes, id) || nodes[id]->Some_0.owners > 1 {
        seq![]
    } else {
        match nodes[id]->Some_0.parent {
            Some(parent) if parent < id => seq![id] + taken_down(
                nodes.update(id, None),
                parent as int,
            ),
            _ => seq![id],
        }
    }
}

/// What is known of the directories that are taken down.
proof fn lemma_taken_down(nodes: Nodes, id: int)
    requires
        nodes_wf(nodes),
        outside_owners(nodes, id) >= 1,
    ensures
        taken_down(nodes, id).len() > 0 <==> nodes[id]->Some_0.owners == 1,
        taken_down(nodes, id).len() > 0 ==> taken_down(nodes, id)[0] == id,
        forall|k: int|
            0 <= k < taken_down(nodes, id).len() ==> {
                &&& 0 <= #[trigger] taken_down(nodes, id)[k] <= id
                &&& is_live(nodes, taken_down(nodes, id)[k])
                &&& nodes[taken_down(nodes, id)[k]]->Some_0.owners == 1
            },
        forall|k: int, l: int|
            0 <= k && l == k + 1 && l < taken_down(nodes, id).len()
                ==> nodes[#[trigger] taken_down(nodes, id)[k]]->Some_0.parent == Some(
                #[trigger] taken_down(nodes, id)[l] as usize,
            ),
    decreases id,
{
    assert(is_live(nodes, id));
    let gone = taken_down(nodes, id);
    let node = nodes[id]->Some_0;
    if node.owners == 1 {
        lemma_last_release(nodes, id);
        if let Some(parent) = node.parent {
            let rest = nodes.update(id, None);
            let above = taken_down(rest, parent as int);
            lemma_taken_down(rest, parent as int);
            assert(gone == seq![id] + above);
            assert forall|k: int| 0 <= k < gone.len() implies {
                &&& 0 <= #[trigger] gone[k] <= id
                &&& is_live(nodes, gone[k])
                &&& nodes[gone[k]]->Some_0.owners == 1
            } by {
                if k > 0 {
                    assert(gone[k] == above[k - 1]);
                    assert(is_live(rest, above[k - 1]));
                }
            }
            assert forall|k: int, l: int| 0 <= k && l == k + 1 && l < gone.len() implies nodes[
                #[trigger] gone[k]
            ]->Some_0.parent == Some(#[trigger] gone[l] as usize) by {
                assert(gone[l] == above[k]);
                if k > 0 {
                    assert(gone[k] == above[k - 1]);
                    assert(is_live(rest, above[k - 1]));
                }
            }
        }
    }
}

/// The directory at which letting go of a share of `id` stops, if it does not go all the way to the
/// root.
spec fn stops_at(nodes: Nodes, id: int) -> Option<int> {
    let gone = taken_down(nodes, id);
    if gone.len() == 0 {
        Some(id)
    } else {
        match nodes[gone.last()]->Some_0.parent {
            Some(up) => Some(up as int),
            None => None,
        }
    }
}

/// What letting go of a share changes.
proof fn lemma_release_changes(nodes: Nodes, id: int)
    requires
        nodes_wf(nodes),
        outside_owners(nodes, id) >= 1,
    ensures
        after_release(nodes, id).len() == nodes.len(),
        forall|i: int|
            taken_down(nodes, id).contains(i) ==> (#[trigger] after_release(nodes, id)[i]) is None,
        stops_at(nodes, id) matches Some(at) ==> {
            &&& is_live(nodes, at)
            &&& nodes[at]->Some_0.owners > 1
            &&& !taken_down(nodes, id).contains(at)
            &&& after_release(nodes, id)[at] == Some(
                Node { owners: (nodes[at]->Some_0.owners - 1) as usize, ..nodes[at]->Some_0 },
            )
        },
        forall|i: int|
            0 <= i < nodes.len() && !taken_down(nodes, id).contains(i) && stops_at(nodes, id)
                != Some(i) ==> #[trigger] after_release(nodes, id)[i] == nodes[i],
    decreases id,
{
    assert(is_live(nodes, id));
    let gone = taken_down(nodes, id);
    let node = nodes[id]->Some_0;
    lemma_taken_down(nodes, id);
    if node.owners == 1 {
        lemma_last_release(nodes, id);
        let rest = nodes.update(id, None);
        assert(gone[0] == id);
        if let Some(parent) = node.parent {
            let up = parent as int;
            let above = taken_down(rest, up);
            lemma_taken_down(rest, up);
            lemma_release_changes(rest, up);
            assert(gone == seq![id] + above);
            assert forall|i: int| gone.contains(i) <==> i == id || above.contains(i) by {
                if above.contains(i) {
                    let k = choose|k: int| 0 <= k < above.len() && above[k] == i;
                    assert(gone[k + 1] == i);
                }
            }
            if above.len() > 0 {
                assert(gone.last() == above.last());
                assert(is_live(rest, above.last()));
            }
            assert(stops_at(nodes, id) == stops_at(rest, up));
            if let Some(at) = stops_at(rest, up) {
                assert(is_live(rest, at));
            }
            assert forall|i: int| gone.contains(i) implies (#[trigger] after_release(nodes, id)[i]) is None by {
                if i == id {
                    assert(!above.contains(id)) by {
                        if above.contains(id) {
                            let k = choose|k: int| 0 <= k < above.len() && above[k] == id;
                            assert(is_live(rest, above[k]));
                        }
                    }
                    assert(stops_at(rest, up) != Some(id));
                    assert(after_release(rest, up)[id] == rest[id]);
                }
            }
        } else {
            assert(gone =~= seq![id]);
        }
    } else {
        assert(gone =~= Seq::empty());
    }
}

/// What is called for when a share is let go.
proof fn lemma_release_calls(nodes: Nodes, id: int)
    requires
        nodes_wf(nodes),
        outside_owners(nodes, id) >= 1,
    ensures
        released(nodes, id) == taken_down(nodes, id).map_values(
            |i: int| nodes[i]->Some_0.dentry,
        ),
        freed(nodes, id) == taken_down(nodes, id).map_values(
            |i: int| nodes[i]->Some_0.memory,
        ).reverse(),
    decreases id,
{
    assert(is_live(nodes, id));
    let gone = taken_down(nodes, id);
    let node = nodes[id]->Some_0;
    let dentries = gone.map_values(|i: int| nodes[i]->Some_0.dentry);
    let memory = gone.map_values(|i: int| nodes[i]->Some_0.memory);
    if node.owners == 1 {
        lemma_last_release(nodes, id);
        if let Some(parent) = node.parent {
            let up = parent as int;
            let rest = nodes.update(id, None);
            let above = taken_down(rest, up);
            lemma_release_calls(rest, up);
            lemma_taken_down(rest, up);
            assert(gone == seq![id] + above);
            assert forall|k: int| 0 <= k < above.len() implies rest[#[trigger] above[k]]
                == nodes[above[k]] by {
                assert(is_live(rest, above[k]));
            }
            let above_dentries = above.map_values(|i: int| rest[i]->Some_0.dentry);
            let above_memory = above.map_values(|i: int| rest[i]->Some_0.memory);
            assert(dentries =~= seq![node.dentry] + above_dentries);
            assert(memory =~= seq![node.memory] + above_memory);
            assert(memory.reverse() =~= above_memory.reverse() + seq![node.memory]);
        } else {
            assert(gone =~= seq![id]);
            assert(dentries =~= seq![node.dentry]);
            assert(memory.reverse() =~= seq![node.memory]);
        }
    } else {
        assert(gone =~= Seq::empty());
        assert(dentries =~= Seq::empty());
        assert(memory.reverse() =~= Seq::empty());
    }
}

/// Letting go of a share takes down the directory if that was its only owner, then the one that it
/// is in if the directory was its only owner, and so on outwards. The first one with another owner
/// stays and has one owner fewer, and nothing else changes. The entries that go are removed from the
/// inside out, and their memory is freed after that, in the reverse order.
///
/// Returns the directories that are taken down, from the inside out.
pub proof fn law_release_takes_what_nobody_owns(nodes: Nodes, id: int) -> (gone: Seq<int>)
    requires
        nodes_wf(nodes),
        outside_owners(nodes, id) >= 1,
    ensures
        gone.len() > 0 <==> nodes[id]->Some_0.owners == 1,
        gone.len() > 0 ==> gone[0] == id,
        forall|k: int|
            0 <= k < gone.len() ==> {
                &&& 0 <= #[trigger] gone[k] < nodes.len()
                &&& nodes[gone[k]] is Some
                &&& nodes[gone[k]]->Some_0.owners == 1
            },
        forall|k: int, l: int|
            0 <= k && l == k + 1 && l < gone.len() ==> nodes[#[trigger] gone[k]]->Some_0.parent
                == Some(#[trigger] gone[l] as usize),
        gone.len() > 0 && nodes[gone.last()]->Some_0.parent is Some
            ==> nodes[nodes[gone.last()]->Some_0.parent->Some_0 as int]->Some_0.owners > 1,
        after_release(nodes, id).len() == nodes.len(),
        forall|i: int|
            0 <= i < nodes.len() ==> #[trigger] after_release(nodes, id)[i] == (if gone.contains(
                i,
            ) {
                None
            } else if (gone.len() == 0 && i == id) || (gone.len() > 0
                && nodes[gone.last()]->Some_0.parent is Some
                && nodes[gone.last()]->Some_0.parent->Some_0 == i) {
                Some(Node { owners: (nodes[i]->Some_0.owners - 1) as usize, ..nodes[i]->Some_0 })
            } else {
                nodes[i]
            }),
        release_calls(nodes, id).len() == 2 * gone.len(),
        forall|k: int|
            0 <= k < gone.len() ==> {
                &&& release_calls(nodes, id)[k] == (Call::DebugfsRemove {
                    dentry: nodes[#[trigger] gone[k]]->Some_0.dentry,
                })
                &&& release_calls(nodes, id)[2 * gone.len() - 1 - k] == (Call::Free {
                    addr: nodes[gone[k]]->Some_0.memory,
                })
            },
{
    let gone = taken_down(nodes, id);
    lemma_taken_down(nodes, id);
    lemma_release_changes(nodes, id);
    lemma_release_calls(nodes, id);
    assert(is_live(nodes, id));
    let n = gone.len() as int;
    assert(released(nodes, id).len() == n);
    assert(freed(nodes, id).len() == n);
    assert forall|k: int| 0 <= k < n implies {
        &&& release_calls(nodes, id)[k] == (Call::DebugfsRemove {
            dentry: nodes[#[trigger] gone[k]]->Some_0.dentry,
        })
        &&& release_calls(nodes, id)[2 * n - 1 - k] == (Call::Free {
            addr: nodes[gone[k]]->Some_0.memory,
        })
    } by {
        assert(released(nodes, id)[k] == nodes[gone[k]]->Some_0.dentry);
        assert(freed(nodes, id)[n - 1 - k] == nodes[gone[k]]->Some_0.memory);
    }
    gone
}

/// A directory keeps its entry, its memory and the directory that it is in for as long as it is
/// there, whatever happens to it and to others.
pub proof fn law_directory_keeps_its_entry(
    nodes: Nodes,
    after: Nodes,
    at: int,
    dentry: usize,
    parent: Option<usize>,
    memory: usize,
    other: int,
)
    requires
        nodes_wf(nodes),
        is_live(nodes, other),
        is_live(after, other),
        ({
            ||| after == after_acquire(nodes, at) && is_live(nodes, at)
            ||| after == after_release(nodes, at) && outside_owners(nodes, at) >= 1
            ||| after == after_share(nodes, at, dentry, parent, memory) && is_place(
                nodes,
                at,
                parent,
            )
        }),
    ensures
        after[other]->Some_0.dentry == nodes[other]->Some_0.dentry,
        after[other]->Some_0.parent == nodes[other]->Some_0.parent,
        after[other]->Some_0.memory == nodes[other]->Some_0.memory,
{
    if after == after_release(nodes, at) && outside_owners(nodes, at) >= 1 {
        lemma_release_changes(nodes, at);
    }
}

/// One owner's share of a directory. There is no way to copy it.
pub struct Dir {
    id: usize,
}

impl Dir {
    /// Which directory this is a share of.
    pub closed spec fn id(self) -> usize {
        self.id
    }
}

/// The place of the directory that a share is of, if there is a share.
pub open spec fn dir_id(dir: Option<Dir>) -> Option<usize> {
    match dir {
        Some(dir) => Some(dir.id()),
        None => None,
    }
}

/// The directories that are shared.
pub struct SharedDirs {
    nodes: Vec<Option<Node>>,
}

impl View for SharedDirs {
    type V = Nodes;

    closed spec fn view(&self) -> Nodes {
        self.nodes@
    }
}

impl SharedDirs {
    /// Every directory has as many owners as it should.
    pub open spec fn wf(self) -> bool {
        nodes_wf(self@)
    }

    /// Whether `dir` is a share of one of these directories.
    pub open spec fn owns(self, dir: Dir) -> bool {
        outside_owners(self@, dir.id() as int) >= 1
    }

    /// Whether `dir` is a share of one of these directories, if there is one.
    pub open spec fn owns_opt(self, dir: Option<Dir>) -> bool {
        dir matches Some(dir) ==> self.owns(dir)
    }

    /// The entry of the directory that a share is of; null for the root of debugfs.
    pub open spec fn dentry_of(self, dir: Option<Dir>) -> usize {
        match dir {
            Some(dir) => self@[dir.id() as int]->Some_0.dentry,
            None => 0,
        }
    }

    /// The directories after a share is given up, if there is one.
    pub open spec fn after_release_opt(self, dir: Option<Dir>) -> Nodes {
        match dir {
            Some(dir) => after_release(self@, dir.id() as int),
            None => self@,
        }
    }

    /// The calls to be made when a share is given up, if there is one.
    pub open spec fn release_calls_opt(self, dir: Option<Dir>) -> Seq<Call> {
        match dir {
            Some(dir) => release_calls(self@, dir.id() as int),
            None => seq![],
        }
    }

    /// No directories.
    pub fn new() -> (r: SharedDirs)
        ensures
            r.wf(),
            r@ == Seq::<Option<Node>>::empty(),
    {
        SharedDirs { nodes: Vec::new() }
    }

    /// Returns the entry of the directory that a share is of, or null for the root of debugfs.
    pub fn dentry(&self, dir: &Option<Dir>) -> (dentry: usize)
        requires
            self.owns_opt(*dir),
        ensures
            dentry == self.dentry_of(*dir),
            *dir is None ==> dentry == 0,
            *dir matches Some(dir) ==> dentry == self@[dir.id() as int]->Some_0.dentry,
    {
        match dir {
            Some(dir) => self.nodes[dir.id].unwrap().dentry,
            None => 0,
        }
    }

    /// Starts sharing the directory with the entry `dentry`, put at the address `memory`. It takes
    /// over the share `parent` of the directory that it is in. Returns the first share.
    ///
    /// The place of a directory that was removed is used again.
    pub fn share(&mut self, dentry: usize, parent: Option<Dir>, memory: usize) -> (dir: Dir)
        requires
            old(self).wf(),
            old(self).owns_opt(parent),
        ensures
            final(self).wf(),
            final(self).owns(dir),
            is_place(old(self)@, dir.id() as int, dir_id(parent)),
            dir.id() <= old(self)@.len(),
            dir.id() < old(self)@.len() ==> old(self)@[dir.id() as int] is None,
            final(self)@.len() == (if dir.id() < old(self)@.len() {
                old(self)@.len()
            } else {
                old(self)@.len() + 1
            }),
            final(self)@[dir.id() as int] == Some(
                Node {
                    dentry,
                    parent: match parent {
                        Some(up) => Some(up.id()),
                        None => None,
                    },
                    memory,
                    owners: 1,
                },
            ),
            forall|i: int|
                0 <= i < old(self)@.len() && i != dir.id() ==> #[trigger] final(self)@[i] == old(
                    self,
                )@[i],
            outside_owners(final(self)@, dir.id() as int) == 1,
            forall|i: int|
                0 <= i < dir.id() && (parent matches Some(up) ==> up.id() < i) ==> (#[trigger] old(
                    self,
                )@[i]) is Some,
            final(self)@ == after_share(
                old(self)@,
                dir.id() as int,
                dentry,
                dir_id(parent),
                memory,
            ),
            forall|i: int|
                i != dir.id() ==> #[trigger] outside_owners(final(self)@, i) == outside_owners(
                    old(self)@,
                    i,
                ) - (if dir_id(parent) is Some && dir_id(parent)->Some_0 == i {
                    1int
                } else {
                    0int
                }),
    {
        let parent = match parent {
            Some(dir) => Some(dir.id),
            None => None,
        };
        let id = self.free_place(parent);
        proof {
            lemma_share(self@, id as int, dentry, parent, memory);
        }
        let node = Some(Node { dentry, parent, memory, owners: 1 });
        if id < self.nodes.len() {
            self.nodes.set(id, node);
        } else {
            self.nodes.push(node);
        }
        Dir { id }
    }

    /// Finds a place for a directory that is in `parent`: the first free one after it.
    fn free_place(&self, parent: Option<usize>) -> (id: usize)
        requires
            parent matches Some(up) ==> is_live(self@, up as int),
        ensures
            is_place(self@, id as int, parent),
            forall|i: int|
                0 <= i < id && (parent matches Some(up) ==> up < i) ==> (#[trigger] self@[i]) is Some,
    {
        let len = self.nodes.len();
        let mut id: usize = match parent {
            Some(up) => up + 1,
            None => 0,
        };
        while id < len && self.nodes[id].is_some()
            invariant
                id <= len == self@.len(),
                parent matches Some(up) ==> up < id,
                forall|i: int|
                    0 <= i < id && (parent matches Some(up) ==> up < i) ==> (#[trigger] self@[i]) is Some,
            decreases self@.len() - id,
        {
            id = id + 1;
        }
        id
    }

    /// Makes another share of a directory.
    pub fn acquire(&mut self, dir: &Dir) -> (r: Dir)
        requires
            old(self).wf(),
            old(self).owns(*dir),
            old(self)@[dir.id() as int]->Some_0.owners < usize::MAX,
        ensures
            final(self).wf(),
            r.id() == dir.id(),
            final(self)@ == after_acquire(old(self)@, dir.id() as int),
            final(self)@ == old(self)@.update(
                dir.id() as int,
                Some(
                    Node {
                        owners: (old(self)@[dir.id() as int]->Some_0.owners + 1) as usize,
                        ..old(self)@[dir.id() as int]->Some_0
                    },
                ),
            ),
            forall|i: int| #[trigger]
                outside_owners(final(self)@, i) == outside_owners(old(self)@, i) + (if i
                    == dir.id() {
                    1int
                } else {
                    0int
                }),
    {
        let id = dir.id;
        proof {
            lemma_acquire(self@, id as int);
        }
        let node = self.nodes[id].unwrap();
        self.nodes.set(id, Some(Node { owners: node.owners + 1, ..node }));
        Dir { id }
    }

    /// Gives up a share. Appends to `calls` what is to be done because of it.
    pub fn release(&mut self, dir: Dir, calls: &mut Vec<Call>)
        requires
            old(self).wf(),
            old(self).owns(dir),
        ensures
            final(self).wf(),
            final(self)@ == after_release(old(self)@, dir.id() as int),
            final(calls)@ == old(calls)@ + release_calls(old(self)@, dir.id() as int),
            one_share_fewer(old(self)@, final(self)@, Some(dir.id())),
    {
        let ghost before = self@;
        self.release_at(dir.id, calls);
        proof {
            assert forall|i: int| #[trigger]
                outside_owners(self@, i) == outside_owners(before, i) - (if i == dir.id {
                    1int
                } else {
                    0int
                }) by {
                law_release_takes_one_owner(before, dir.id as int, i);
            }
        }
    }

    /// Gives up a share of the directory at `id`.
    fn release_at(&mut self, id: usize, calls: &mut Vec<Call>)
        requires
            nodes_wf(old(self)@),
            outside_owners(old(self)@, id as int) >= 1,
        ensures
            nodes_wf(final(self)@),
            final(self)@ == after_release(old(self)@, id as int),
            final(calls)@ == old(calls)@ + release_calls(old(self)@, id as int),
        decreases id,
    {
        proof {
            lemma_release(self@, id as int);
        }
        let node = self.nodes[id].unwrap();
        if node.owners > 1 {
            self.nodes.set(id, Some(Node { owners: node.owners - 1, ..node }));
        } else {
            proof {
                lemma_last_release(self@, id as int);
            }
            self.nodes.set(id, None);
            calls.push(Call::DebugfsRemove { dentry: node.dentry });
            match node.parent {
                Some(parent) => self.release_at(parent, calls),
                None => {},
            }
            calls.push(Call::Free { addr: node.memory });
        }
        assert(calls@ =~= old(calls)@ + release_calls(old(self)@, id as int));
    }

    /// Gives up a share, if there is one. Appends to `calls` what is to be done because of it.
    pub fn release_opt(&mut self, dir: Option<Dir>, calls: &mut Vec<Call>)
        requires
            old(self).wf(),
            old(self).owns_opt(dir),
        ensures
            final(self).wf(),
            final(self)@ == old(self).after_release_opt(dir),
            final(calls)@ == old(calls)@ + old(self).release_calls_opt(dir),
            one_share_fewer(old(self)@, final(self)@, dir_id(dir)),
            dir is None ==> final(self)@ == old(self)@ && final(calls)@ == old(calls)@,
            dir matches Some(dir) ==> {
                &&& final(self)@ == after_release(old(self)@, dir.id() as int)
                &&& final(calls)@ == old(calls)@ + release_calls(old(self)@, dir.id() as int)
            },
    {
        match dir {
            Some(dir) => self.release(dir, calls),
            None => {
                assert(calls@ =~= calls@ + seq![]);
            },
        }
    }
}

/// The entry of a directory that someone owns a share of is where the way from it to the root
/// begins; the root itself has the null entry.
pub proof fn law_way_to_the_root_begins_at_the_entry(dirs: SharedDirs, dir: Dir)
    requires
        dirs.owns(dir),
    ensures
        path(dirs@, dir.id() as int).len() >= 1,
        dirs.dentry_of(Some(dir)) == path(dirs@, dir.id() as int)[0],
        dirs.dentry_of(None) == 0,
{
    let id = dir.id() as int;
    assert(is_live(dirs@, id));
    assert(ancestors(dirs@, id)[0] == id);
}

/// The way to the root goes from each directory to the one that it is in, and ends at one that is in
/// the root.
pub proof fn law_way_to_the_root_follows_parents(nodes: Nodes, id: int)
    requires
        nodes_wf(nodes),
        is_live(nodes, id),
    ensures
        ancestors(nodes, id).len() >= 1,
        ancestors(nodes, id)[0] == id,
        nodes[ancestors(nodes, id).last()]->Some_0.parent is None,
        forall|k: int, l: int|
            0 <= k && l == k + 1 && l < ancestors(nodes, id).len() ==> nodes[
                #[trigger] ancestors(nodes, id)[k]
            ]->Some_0.parent == Some(#[trigger] ancestors(nodes, id)[l] as usize),
        path(nodes, id).len() == ancestors(nodes, id).len(),
        forall|k: int|
            0 <= k < path(nodes, id).len() ==> #[trigger] path(nodes, id)[k] == nodes[ancestors(
                nodes,
                id,
            )[k]]->Some_0.dentry,
    decreases id,
{
    let all = ancestors(nodes, id);
    if let Some(parent) = nodes[id]->Some_0.parent {
        let up = parent as int;
        assert(is_live(nodes, up));
        law_way_to_the_root_follows_parents(nodes, up);
        let above = ancestors(nodes, up);
        assert(all == seq![id] + above);
        assert(all.last() == above.last());
        assert forall|k: int, l: int| 0 <= k && l == k + 1 && l < all.len() implies nodes[
            #[trigger] all[k]
        ]->Some_0.parent == Some(#[trigger] all[l] as usize) by {
            assert(all[l] == above[k]);
            if k > 0 {
                assert(all[k] == above[k - 1]);
            }
        }
    } else {
        assert(all =~= seq![id]);
    }
}

/// Where there is no share there is nothing to let go of.
pub proof fn law_nothing_to_let_go_of(dirs: SharedDirs, dir: Dir)
    ensures
        dirs.after_release_opt(None) == dirs@,
        dirs.release_calls_opt(None).len() == 0,
        dirs.owns_opt(None),
        dir_id(None) is None,
        dirs.after_release_opt(Some(dir)) == after_release(dirs@, dir.id() as int),
        dirs.release_calls_opt(Some(dir)) == release_calls(dirs@, dir.id() as int),
        dirs.owns_opt(Some(dir)) <==> dirs.owns(dir),
        dir_id(Some(dir)) == Some(dir.id()),
{
}

} // verus!
