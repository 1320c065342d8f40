//! What the two rewriting phases share: the marks of a traversal, what it means for a node
//! to be free of 64-bit integers, and which nodes a body reaches.

use vstd::prelude::*;
use crate::ir::node::{ExprId, ExprView, FunctionId, GlobalId, LocalId};
use crate::ir::reach::{
    every_reached, lemma_every_reached_child, lemma_every_reached_root, reachable,
};
use crate::module::globals::Global;
use crate::module::locals::LocalView;
use crate::ty::{mentions_i64, TypeId, TypeView, ValType};

verus! {

/// How far a traversal has come with one node of the arena it started on.
#[derive(Clone, Copy, Debug, PartialEq, Eq, Structural)]
pub enum Mark {
    /// The node has not been reached.
    Unseen,
    /// The node has been reached and its operands are being visited.
    Active,
    /// The node has been rewritten; where its parents must refer to another node instead,
    /// that node is given.
    Done(Option<ExprId>),
}

/// The number of nodes that have not been reached.
pub open spec fn unseen(marks: Seq<Mark>) -> nat
    decreases marks.len(),
{
    if marks.len() == 0 {
        0
    } else {
        unseen(marks.drop_last()) + if marks.last() is Unseen {
            1nat
        } else {
            0nat
        }
    }
}

/// Changing one mark changes the number of unreached nodes by what that mark contributes.
pub proof fn lemma_unseen_update(marks: Seq<Mark>, i: int, mark: Mark)
    requires
        0 <= i < marks.len(),
    ensures
        unseen(marks.update(i, mark)) + (if marks[i] is Unseen {
            1nat
        } else {
            0nat
        }) == unseen(marks) + (if mark is Unseen {
            1nat
        } else {
            0nat
        }),
    decreases marks.len(),
{
    if i == marks.len() - 1 {
        assert(marks.update(i, mark).drop_last() =~= marks.drop_last());
    } else {
        assert(marks.update(i, mark).drop_last() =~= marks.drop_last().update(i, mark));
        lemma_unseen_update(marks.drop_last(), i, mark);
    }
}

/// The tables against which a function body is read.
pub struct Scope {
    /// The locals of the module.
    pub locals: Seq<LocalView>,
    /// The globals of the module.
    pub globals: Seq<Global>,
    /// The signatures of the module.
    pub types: Seq<TypeView>,
    /// The type of each function, by position.
    pub callees: Map<usize, TypeId>,
}

/// Whether `local` is a 64-bit local.
pub open spec fn is_i64_local(locals: Seq<LocalView>, local: LocalId) -> bool {
    local.index < locals.len() && locals[local.index as int].ty == ValType::I64
}

/// Whether `local` is a 32-bit local.
pub open spec fn is_i32_local(locals: Seq<LocalView>, local: LocalId) -> bool {
    local.index < locals.len() && locals[local.index as int].ty == ValType::I32
}

/// Whether `global` is a 64-bit global.
pub open spec fn is_i64_global(globals: Seq<Global>, global: GlobalId) -> bool {
    global.index < globals.len() && globals[global.index as int].ty == ValType::I64
}

/// Whether `ty` is a signature that returns one 64-bit integer.
pub open spec fn type_returns_i64(types: Seq<TypeView>, ty: TypeId) -> bool {
    ty.index < types.len() && types[ty.index as int].results == seq![ValType::I64]
}

/// Whether `ty` is a signature that takes or returns a 64-bit integer.
pub open spec fn type_mentions_i64(types: Seq<TypeView>, ty: TypeId) -> bool {
    ty.index < types.len() && types[ty.index as int].mentions_i64()
}

/// Whether the function `func` takes or returns a 64-bit integer.
pub open spec fn callee_mentions_i64(scope: Scope, func: FunctionId) -> bool {
    scope.callees.contains_key(func.index) && type_mentions_i64(
        scope.types,
        scope.callees[func.index],
    )
}

/// Whether the node neither takes nor produces a 64-bit integer, as far as the node itself
/// and the tables show: its literal, its operator, the kind of its memory access, the local,
/// global or function it names, or its declared result types.
pub open spec fn lowered(scope: Scope, e: ExprView) -> bool {
    match e {
        ExprView::Const(c) => !c.value.touches_i64(),
        ExprView::Unop(u) => !u.op.touches_i64(),
        ExprView::Binop(b) => !b.op.touches_i64(),
        ExprView::Load(l) => !l.kind.touches_i64(),
        ExprView::Store(s) => !s.kind.touches_i64(),
        ExprView::LocalGet(g) => !is_i64_local(scope.locals, g.local),
        ExprView::LocalSet(s) => !is_i64_local(scope.locals, s.local),
        ExprView::LocalTee(t) => !is_i64_local(scope.locals, t.local),
        ExprView::GlobalGet(g) => !is_i64_global(scope.globals, g.global),
        ExprView::GlobalSet(s) => !is_i64_global(scope.globals, s.global),
        ExprView::Block(b) => !mentions_i64(b.results),
        ExprView::Call(c) => !callee_mentions_i64(scope, c.func),
        ExprView::CallIndirect(c) => !type_mentions_i64(scope.types, c.ty),
        ExprView::AtomicRmw(a) => !a.width.touches_i64(),
        ExprView::Cmpxchg(c) => !c.width.touches_i64(),
        ExprView::AtomicWait(_) => false,
        _ => true,
    }
}

/// Whether every node that the body reaches from `root` is [`lowered`].
pub open spec fn body_lowered(scope: Scope, nodes: Seq<ExprView>, root: ExprId) -> bool {
    every_reached(nodes, root, |e: ExprView| lowered(scope, e))
}

/// Where every node that a body reaches from `root` is lowered, so is every node that the
/// body reaches from an operand of `root`.
pub proof fn lemma_body_lowered_child(scope: Scope, nodes: Seq<ExprView>, root: ExprId, k: int)
    requires
        body_lowered(scope, nodes, root),
        0 <= root.index < nodes.len(),
        0 <= k < nodes[root.index as int].children().len(),
    ensures
        body_lowered(scope, nodes, nodes[root.index as int].children()[k]),
{
    lemma_every_reached_child(nodes, root, k, |e: ExprView| lowered(scope, e));
}

/// Where every node that a body reaches from `root` is lowered, `root` itself is.
pub proof fn lemma_body_lowered_root(scope: Scope, nodes: Seq<ExprView>, root: ExprId)
    requires
        body_lowered(scope, nodes, root),
        0 <= root.index < nodes.len(),
    ensures
        lowered(scope, nodes[root.index as int]),
{
    lemma_every_reached_root(nodes, root, |e: ExprView| lowered(scope, e));
}

/// Whether the node is none of the forms that the first phase looks for: an operator, a
/// memory access or a block of 64-bit integers.
pub open spec fn plain_form(e: ExprView) -> bool {
    match e {
        ExprView::Unop(u) => !u.op.touches_i64(),
        ExprView::Load(l) => !l.kind.touches_i64(),
        ExprView::Store(s) => !s.kind.touches_i64(),
        ExprView::Block(b) => !mentions_i64(b.results),
        _ => true,
    }
}

/// Whether every node that the body reaches from `root` is a [`plain_form`].
pub open spec fn body_plain(nodes: Seq<ExprView>, root: ExprId) -> bool {
    every_reached(nodes, root, |e: ExprView| plain_form(e))
}

/// A body of lowered nodes is a body of plain forms.
pub proof fn lemma_lowered_is_plain(scope: Scope, nodes: Seq<ExprView>, root: ExprId)
    requires
        body_lowered(scope, nodes, root),
    ensures
        body_plain(nodes, root),
{
}

/// A body that is lowered against one scope is lowered against another, where each node
/// of the arena that is lowered against the first is lowered against the second.
pub proof fn lemma_body_rescoped(a: Scope, b: Scope, nodes: Seq<ExprView>, root: ExprId)
    requires
        body_lowered(a, nodes, root),
        forall|i: int| 0 <= i < nodes.len() && lowered(a, nodes[i]) ==> lowered(b, #[trigger] nodes[i]),
    ensures
        body_lowered(b, nodes, root),
{
    assert forall|x: int| 0 <= x < nodes.len() && #[trigger] reachable(nodes, root, x) implies lowered(
        b,
        nodes[x],
    ) by {
        assert(lowered(a, nodes[x]));
    }
}

/// Whether `rank` gives every node of the arena a greater number than each of its
/// operands.
pub open spec fn ranked(nodes: Seq<ExprView>, rank: Seq<nat>) -> bool {
    &&& rank.len() == nodes.len()
    &&& forall|i: int, k: int|
        0 <= i < nodes.len() && 0 <= k < nodes[i].children().len() && (
        #[trigger] nodes[i].children()[k]).index < nodes.len() ==> rank[nodes[i].children()[k].index as int]
            < rank[i]
}

/// Whether no node of the arena is an operand, at any depth, of itself: the nodes can be
/// numbered so that every node has a greater number than each of its operands.
pub open spec fn acyclic(nodes: Seq<ExprView>) -> bool {
    exists|rank: Seq<nat>| ranked(nodes, rank)
}

/// A numbering of an acyclic arena in which every node has a greater number than each of
/// its operands.
pub open spec fn ranking(nodes: Seq<ExprView>) -> Seq<nat> {
    choose|rank: Seq<nat>| ranked(nodes, rank)
}

/// Whether every node that is being visited has a greater number than the node at `id`.
pub open spec fn above(marks: Seq<Mark>, rank: Seq<nat>, id: ExprId) -> bool {
    forall|i: int|
        0 <= i < marks.len() && i < rank.len() && #[trigger] marks[i] is Active && id.index
            < rank.len() ==> rank[i] > rank[id.index as int]
}

} // verus!
