//! Which nodes an expression reaches: itself, its operands, their operands, and so on.

use vstd::prelude::*;
use crate::ir::node::{ExprId, ExprView};

verus! {

/// Whether the set `s` of positions holds, with each node, the operands of that node.
pub open spec fn closed_under_children(nodes: Seq<ExprView>, s: Set<int>) -> bool {
    forall|i: int, k: int|
        0 <= i < nodes.len() && s.contains(i) && 0 <= k < nodes[i].children().len() ==> s.contains(
            (#[trigger] nodes[i].children()[k]).index as int,
        )
}

/// Whether the node at position `x` is `root` or an operand, at any depth, of `root`: it
/// belongs to every set that holds `root` and is closed under operands.
pub open spec fn reachable(nodes: Seq<ExprView>, root: ExprId, x: int) -> bool {
    forall|s: Set<int>|
        #[trigger] closed_under_children(nodes, s) && s.contains(root.index as int) ==> s.contains(x)
}

/// The root is reachable.
pub proof fn lemma_root_reachable(nodes: Seq<ExprView>, root: ExprId)
    ensures
        reachable(nodes, root, root.index as int),
{
}

/// The operands of a reachable node are reachable.
pub proof fn lemma_child_reachable(nodes: Seq<ExprView>, root: ExprId, x: int, k: int)
    requires
        reachable(nodes, root, x),
        0 <= x < nodes.len(),
        0 <= k < nodes[x].children().len(),
    ensures
        reachable(nodes, root, nodes[x].children()[k].index as int),
{
    let c = nodes[x].children()[k];
    assert forall|s: Set<int>|
        #[trigger] closed_under_children(nodes, s) && s.contains(root.index as int) implies s.contains(
        c.index as int,
    ) by {
        assert(s.contains(x));
    }
}

/// Whether `holds` is true of every node that the body reaches from `root`.
pub open spec fn every_reached(
    nodes: Seq<ExprView>,
    root: ExprId,
    holds: spec_fn(ExprView) -> bool,
) -> bool {
    forall|x: int| 0 <= x < nodes.len() && #[trigger] reachable(nodes, root, x) ==> holds(nodes[x])
}

/// What holds of every node that a body reaches from `root` holds of every node that it
/// reaches from an operand of `root`.
pub proof fn lemma_every_reached_child(
    nodes: Seq<ExprView>,
    root: ExprId,
    k: int,
    holds: spec_fn(ExprView) -> bool,
)
    requires
        every_reached(nodes, root, holds),
        0 <= root.index < nodes.len(),
        0 <= k < nodes[root.index as int].children().len(),
    ensures
        every_reached(nodes, nodes[root.index as int].children()[k], holds),
{
    let child = nodes[root.index as int].children()[k];
    assert forall|x: int| 0 <= x < nodes.len() && #[trigger] reachable(nodes, child, x) implies holds(
        nodes[x],
    ) by {
        assert forall|s: Set<int>|
            #[trigger] closed_under_children(nodes, s) && s.contains(
                root.index as int,
            ) implies s.contains(x) by {
            assert(s.contains(child.index as int));
        }
        assert(reachable(nodes, root, x));
    }
}

/// What holds of every node that a body reaches from `root` holds of `root`.
pub proof fn lemma_every_reached_root(
    nodes: Seq<ExprView>,
    root: ExprId,
    holds: spec_fn(ExprView) -> bool,
)
    requires
        every_reached(nodes, root, holds),
        0 <= root.index < nodes.len(),
    ensures
        holds(nodes[root.index as int]),
{
    assert(reachable(nodes, root, root.index as int));
}

/// What holds of every node of a set that holds `root` and, with each node, its operands,
/// holds of every node that the body reaches from `root`.
pub proof fn lemma_every_reached_from_closed(
    nodes: Seq<ExprView>,
    root: ExprId,
    s: Set<int>,
    holds: spec_fn(ExprView) -> bool,
)
    requires
        closed_under_children(nodes, s),
        s.contains(root.index as int),
        forall|x: int| 0 <= x < nodes.len() && s.contains(x) ==> holds(#[trigger] nodes[x]),
    ensures
        every_reached(nodes, root, holds),
{
    assert forall|x: int| 0 <= x < nodes.len() && #[trigger] reachable(nodes, root, x) implies holds(
        nodes[x],
    ) by {
        assert(s.contains(x));
    }
}

/// The number of positions below `n` that the body reaches from `root`.
pub open spec fn reach_count(nodes: Seq<ExprView>, root: ExprId, n: int) -> nat
    decreases n,
{
    if n <= 0 {
        0
    } else {
        reach_count(nodes, root, n - 1) + if reachable(nodes, root, n - 1) {
            1nat
        } else {
            0nat
        }
    }
}

/// The number of `true` among the first `n` of `flags`.
pub open spec fn trues(flags: Seq<bool>, n: int) -> nat
    decreases n,
{
    if n <= 0 {
        0
    } else {
        trues(flags, n - 1) + if flags[n - 1] {
            1nat
        } else {
            0nat
        }
    }
}

/// There are at most as many `true` among the first `n` flags as there are flags.
pub proof fn lemma_trues_bound(flags: Seq<bool>, n: int)
    requires
        0 <= n,
    ensures
        trues(flags, n) <= n,
    decreases n,
{
    if n > 0 {
        lemma_trues_bound(flags, n - 1);
    }
}

/// Among flags of which none is set, the number of `true` is zero.
pub proof fn lemma_trues_none(flags: Seq<bool>, n: int)
    requires
        0 <= n <= flags.len(),
        forall|i: int| 0 <= i < n ==> !flags[i],
    ensures
        trues(flags, n) == 0,
    decreases n,
{
    if n > 0 {
        lemma_trues_none(flags, n - 1);
    }
}

/// Setting a flag that was not set adds one to the number of `true`.
pub proof fn lemma_trues_set(flags: Seq<bool>, i: int, n: int)
    requires
        0 <= i < flags.len(),
        0 <= n <= flags.len(),
        !flags[i],
    ensures
        trues(flags.update(i, true), n) == trues(flags, n) + if i < n {
            1nat
        } else {
            0nat
        },
    decreases n,
{
    if n > 0 {
        lemma_trues_set(flags, i, n - 1);
    }
}

/// Where the flags say which positions a body reaches, the number of `true` is the number
/// of positions that it reaches.
pub proof fn lemma_trues_count_reach(flags: Seq<bool>, nodes: Seq<ExprView>, root: ExprId, n: int)
    requires
        0 <= n <= flags.len(),
        forall|i: int| 0 <= i < n ==> flags[i] == reachable(nodes, root, i),
    ensures
        trues(flags, n) == reach_count(nodes, root, n),
    decreases n,
{
    if n > 0 {
        lemma_trues_count_reach(flags, nodes, root, n - 1);
    }
}

/// What an operand of `root` reaches, `root` reaches.
pub proof fn lemma_reach_through(nodes: Seq<ExprView>, root: ExprId, k: int, x: int)
    requires
        0 <= root.index < nodes.len(),
        0 <= k < nodes[root.index as int].children().len(),
        reachable(nodes, nodes[root.index as int].children()[k], x),
    ensures
        reachable(nodes, root, x),
{
    let child = nodes[root.index as int].children()[k];
    assert forall|s: Set<int>|
        #[trigger] closed_under_children(nodes, s) && s.contains(root.index as int) implies s.contains(
        x,
    ) by {
        assert(s.contains(child.index as int));
    }
}

/// What a node that `root` reaches reaches, `root` reaches.
pub proof fn lemma_reach_trans(nodes: Seq<ExprView>, root: ExprId, via: ExprId, x: int)
    requires
        reachable(nodes, root, via.index as int),
        reachable(nodes, via, x),
    ensures
        reachable(nodes, root, x),
{
    assert forall|s: Set<int>|
        #[trigger] closed_under_children(nodes, s) && s.contains(root.index as int) implies s.contains(
        x,
    ) by {
        assert(s.contains(via.index as int));
    }
}

/// Whether every node that the body reaches from `root` is an operand of one node at most
/// among the nodes that the body reaches from `root`.
pub open spec fn single_parent(nodes: Seq<ExprView>, root: ExprId) -> bool {
    forall|x: int, y: int, i: int, j: int|
        0 <= x < nodes.len() && 0 <= y < nodes.len() && reachable(nodes, root, x) && reachable(
            nodes,
            root,
            y,
        ) && 0 <= i < nodes[x].children().len() && 0 <= j < nodes[y].children().len() && (
        #[trigger] nodes[x].children()[i]).index == (#[trigger] nodes[y].children()[j]).index
            ==> x == y
}

/// In a body of single parents, a node that reaches an operand of another, and is not that
/// operand, reaches the other.
pub proof fn lemma_only_through_parent(
    nodes: Seq<ExprView>,
    root: ExprId,
    from: ExprId,
    parent: ExprId,
    k: int,
)
    requires
        single_parent(nodes, root),
        0 <= from.index < nodes.len(),
        0 <= parent.index < nodes.len(),
        reachable(nodes, root, from.index as int),
        reachable(nodes, root, parent.index as int),
        0 <= k < nodes[parent.index as int].children().len(),
        reachable(nodes, from, nodes[parent.index as int].children()[k].index as int),
        from.index != nodes[parent.index as int].children()[k].index,
        forall|i: int, j: int|
            0 <= i < nodes.len() && 0 <= j < nodes[i].children().len() ==> (
            #[trigger] nodes[i].children()[j]).index < nodes.len(),
    ensures
        reachable(nodes, from, parent.index as int),
{
    let child = nodes[parent.index as int].children()[k].index as int;
    if !reachable(nodes, from, parent.index as int) {
        let s = Set::new(|x: int| reachable(nodes, from, x) && x != child);
        assert forall|x: int, i: int|
            0 <= x < nodes.len() && s.contains(x) && 0 <= i < nodes[x].children().len() implies s.contains(
            (#[trigger] nodes[x].children()[i]).index as int,
        ) by {
            let via = ExprId { arena: from.arena, index: x as usize };
            lemma_child_reachable(nodes, from, x, i);
            if nodes[x].children()[i].index == child {
                lemma_reach_trans(nodes, root, from, x);
                assert(nodes[x].children()[i].index == nodes[parent.index as int].children()[k].index);
                assert(x == parent.index);
            }
        }
        assert(closed_under_children(nodes, s));
        assert(reachable(nodes, from, from.index as int));
        assert(s.contains(from.index as int));
        assert(s.contains(child));
    }
}

/// In an arena numbered so that every node has a greater number than each of its operands,
/// a node has a greater number than every other node that it reaches.
pub proof fn lemma_reach_rank(nodes: Seq<ExprView>, rank: Seq<nat>, root: ExprId, x: int)
    requires
        rank.len() == nodes.len(),
        forall|i: int, k: int|
            0 <= i < nodes.len() && 0 <= k < nodes[i].children().len() && (
            #[trigger] nodes[i].children()[k]).index < nodes.len() ==> rank[nodes[i].children()[k].index as int]
                < rank[i],
        0 <= root.index < nodes.len(),
        0 <= x < nodes.len(),
        x != root.index,
        reachable(nodes, root, x),
    ensures
        rank[x] < rank[root.index as int],
{
    let s = Set::new(
        |y: int|
            y == root.index || !(0 <= y < nodes.len()) || rank[y] < rank[root.index as int],
    );
    assert forall|i: int, k: int|
        0 <= i < nodes.len() && s.contains(i) && 0 <= k < nodes[i].children().len() implies s.contains(
        (#[trigger] nodes[i].children()[k]).index as int,
    ) by {}
    assert(closed_under_children(nodes, s));
    assert(s.contains(x));
}

} // verus!
