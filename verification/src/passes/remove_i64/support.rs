//! Which bodies the second phase is sure to rewrite: a reading of a body, before it is
//! rewritten, that tells which expressions produce a 64-bit value and whether each
//! expression gets what its rewrite needs.

use vstd::prelude::*;
use crate::ir::node::{
    AtomicNotify, AtomicRmw, AtomicWait, Binop, BlockView, BrIfView, BrTableView, BrView,
    CallIndirectView, CallView, Cmpxchg, Drop, ExprId, ExprView, GlobalSet, IfElse, Load, LocalSet,
    LocalTee, MemoryCopy, MemoryFill, MemoryGrow, MemoryInit, ReturnView, Select, Store, Unop,
};
use crate::ir::ops::{LoadKind, StoreKind};
use crate::ir::reach::{
    closed_under_children, lemma_child_reachable, lemma_only_through_parent, lemma_reach_rank,
    lemma_reach_through, reachable, single_parent,
};
use crate::module::functions::local_function::{
    accessed_local, LocalFunction, node_ok, nodes_ok, valid_id,
};
use crate::module::locals::LocalView;
use crate::passes::remove_i64::remove::{Env, RemoveI64};
use crate::passes::remove_i64::walk::{
    callee_mentions_i64, is_i64_global, is_i64_local, Mark, ranked, Scope, type_mentions_i64,
};
use crate::ty::mentions_i64;

verus! {

/// Whether the node, by itself, produces a 64-bit value that the second phase rewrites: a
/// 64-bit literal, a read of a 64-bit global or local, a tee of a 64-bit local, a rewritten
/// operator with a 64-bit result, a plain 64-bit load, or a block of a single 64-bit result.
pub open spec fn wide_form(scope: Scope, e: ExprView) -> bool {
    match e {
        ExprView::Const(c) => c.value is I64,
        ExprView::GlobalGet(g) => is_i64_global(scope.globals, g.global),
        ExprView::LocalGet(g) => is_i64_local(scope.locals, g.local),
        ExprView::LocalTee(t) => is_i64_local(scope.locals, t.local),
        ExprView::Unop(u) => RemoveI64::rewrites_unop(u.op) && !(u.op is I64Eqz) && !(
        u.op is I32WrapI64),
        ExprView::Binop(b) => b.op.bitwise_half() is Some,
        ExprView::Load(l) => l.kind == (LoadKind::I64 { atomic: false }),
        ExprView::Block(b) => RemoveI64::yields_i64(b),
        _ => false,
    }
}

/// Whether the node at position `i` produces a 64-bit value that the second phase
/// rewrites: by itself, or as a conditional whose first arm is a block of a single 64-bit
/// result.
pub open spec fn wide(scope: Scope, nodes: Seq<ExprView>, i: int) -> bool {
    match nodes[i] {
        ExprView::IfElse(e) => nodes[e.consequent.id.index as int] matches ExprView::Block(b)
            && RemoveI64::yields_i64(b),
        other => wide_form(scope, other),
    }
}

/// Whether the node at `id` is a block that holds an expression.
pub open spec fn filled(nodes: Seq<ExprView>, id: ExprId) -> bool {
    nodes[id.index as int] matches ExprView::Block(b) && b.exprs.len() > 0
}

/// Whether every block of the arena `before` is a block of the arena `after` with at
/// least as many expressions.
pub open spec fn blocks_grow(before: Seq<ExprView>, after: Seq<ExprView>) -> bool {
    &&& before.len() <= after.len()
    &&& forall|i: int|
        0 <= i < before.len() ==> (#[trigger] before[i] matches ExprView::Block(b)
            ==> after[i] matches ExprView::Block(c) && c.exprs.len() >= b.exprs.len())
}

/// Whether no operand of the node produces a 64-bit value.
pub open spec fn narrow_operands(scope: Scope, nodes: Seq<ExprView>, e: ExprView) -> bool {
    forall|k: int|
        0 <= k < e.children().len() ==> !wide(scope, nodes, (#[trigger] e.children()[k]).index as int)
}

/// Whether the second phase is sure to rewrite the node at position `i`: the node is of a
/// form that has a rewrite, or needs none, and each operand that its rewrite takes for a
/// 64-bit value produces one.
///
/// A branch that carries a 64-bit value must carry nothing else, to a block of a single
/// 64-bit result that the body reaches from its entry `entry` and that reaches the branch,
/// in a body in which every node is an operand of one node at most.
pub open spec fn supported(scope: Scope, nodes: Seq<ExprView>, entry: ExprId, i: int) -> bool {
    let wide_at = |e: ExprId| wide(scope, nodes, e.index as int);
    match nodes[i] {
        ExprView::GlobalSet(e) => is_i64_global(scope.globals, e.global) ==> wide_at(e.value),
        ExprView::LocalSet(e) => is_i64_local(scope.locals, e.local) ==> wide_at(e.value),
        ExprView::LocalTee(e) => is_i64_local(scope.locals, e.local) ==> wide_at(e.value),
        ExprView::Binop(e) => if e.op.bitwise_half() is Some {
            wide_at(e.lhs) && wide_at(e.rhs)
        } else {
            !e.op.touches_i64()
        },
        ExprView::Unop(e) => (e.op.touches_i64() ==> RemoveI64::rewrites_unop(e.op)) && (
        RemoveI64::consumes_i64(e.op) ==> wide_at(e.expr)),
        ExprView::Load(e) => if e.kind == (LoadKind::I64 { atomic: false }) {
            e.arg.offset + 4 <= u32::MAX
        } else {
            !e.kind.touches_i64()
        },
        ExprView::Store(e) => if e.kind == (StoreKind::I64 { atomic: false }) {
            e.arg.offset + 4 <= u32::MAX && wide_at(e.value)
        } else {
            !e.kind.touches_i64()
        },
        ExprView::Block(e) => if RemoveI64::yields_i64(e) {
            e.exprs.len() > 0
        } else {
            !mentions_i64(e.results)
        },
        ExprView::IfElse(e) => wide(scope, nodes, i) ==> wide_at(e.alternative.id) && filled(
            nodes,
            e.consequent.id,
        ) && filled(nodes, e.alternative.id),
        ExprView::Call(e) => !callee_mentions_i64(scope, e.func) && narrow_operands(
            scope,
            nodes,
            nodes[i],
        ),
        ExprView::CallIndirect(e) => !type_mentions_i64(scope.types, e.ty) && narrow_operands(
            scope,
            nodes,
            nodes[i],
        ),
        ExprView::AtomicRmw(e) => !e.width.touches_i64() && narrow_operands(scope, nodes, nodes[i]),
        ExprView::Cmpxchg(e) => !e.width.touches_i64() && narrow_operands(scope, nodes, nodes[i]),
        ExprView::AtomicWait(_) => false,
        ExprView::Br(e) => narrow_operands(scope, nodes, nodes[i]) || {
            &&& e.args.len() == 1
            &&& e.block.id.index < nodes.len()
            &&& nodes[e.block.id.index as int] matches ExprView::Block(b)
            &&& RemoveI64::yields_i64(b)
            &&& single_parent(nodes, entry)
            &&& reachable(nodes, entry, e.block.id.index as int)
            &&& reachable(nodes, e.block.id, i)
        },
        ExprView::BrIf(_) | ExprView::BrTable(_) | ExprView::Select(_) | ExprView::Return(_) => narrow_operands(
            scope,
            nodes,
            nodes[i],
        ),
        _ => true,
    }
}

/// An identifier that stands for no operand in particular.
pub open spec fn nowhere() -> ExprId {
    ExprId { arena: 0, index: 0 }
}

/// The node without its operands: each operand replaced by [`nowhere`]. The arms of a
/// conditional stay.
pub open spec fn form_of(e: ExprView) -> ExprView {
    match e {
        ExprView::Block(x) => ExprView::Block(
            BlockView {
                exprs: Seq::new(x.exprs.len(), |i: int| nowhere()),
                ..x
            },
        ),
        ExprView::Call(x) => ExprView::Call(
            CallView {
                args: Seq::new(x.args.len(), |i: int| nowhere()),
                ..x
            },
        ),
        ExprView::CallIndirect(x) => ExprView::CallIndirect(
            CallIndirectView {
                args: Seq::new(x.args.len(), |i: int| nowhere()),
                func: nowhere(),
                ..x
            },
        ),
        ExprView::LocalGet(_) => e,
        ExprView::LocalSet(x) => ExprView::LocalSet(LocalSet { value: nowhere(), ..x }),
        ExprView::LocalTee(x) => ExprView::LocalTee(LocalTee { value: nowhere(), ..x }),
        ExprView::GlobalGet(_) => e,
        ExprView::GlobalSet(x) => ExprView::GlobalSet(GlobalSet { value: nowhere(), ..x }),
        ExprView::Const(_) => e,
        ExprView::Binop(x) => ExprView::Binop(Binop { lhs: nowhere(), rhs: nowhere(), ..x }),
        ExprView::Unop(x) => ExprView::Unop(Unop { expr: nowhere(), ..x }),
        ExprView::Select(x) => ExprView::Select(
            Select {
                consequent: nowhere(),
                alternative: nowhere(),
                condition: nowhere(),
                ..x
            },
        ),
        ExprView::Unreachable(_) => e,
        ExprView::Br(x) => ExprView::Br(
            BrView {
                args: Seq::new(x.args.len(), |i: int| nowhere()),
                ..x
            },
        ),
        ExprView::BrIf(x) => ExprView::BrIf(
            BrIfView {
                args: Seq::new(x.args.len(), |i: int| nowhere()),
                condition: nowhere(),
                ..x
            },
        ),
        ExprView::IfElse(x) => ExprView::IfElse(IfElse { condition: nowhere(), ..x }),
        ExprView::BrTable(x) => ExprView::BrTable(
            BrTableView {
                args: Seq::new(x.args.len(), |i: int| nowhere()),
                which: nowhere(),
                ..x
            },
        ),
        ExprView::Drop(x) => ExprView::Drop(Drop { expr: nowhere(), ..x }),
        ExprView::Return(x) => ExprView::Return(
            ReturnView {
                values: Seq::new(x.values.len(), |i: int| nowhere()),
                ..x
            },
        ),
        ExprView::MemorySize(_) => e,
        ExprView::MemoryGrow(x) => ExprView::MemoryGrow(MemoryGrow { pages: nowhere(), ..x }),
        ExprView::MemoryInit(x) => ExprView::MemoryInit(
            MemoryInit {
                memory_offset: nowhere(),
                data_offset: nowhere(),
                len: nowhere(),
                ..x
            },
        ),
        ExprView::DataDrop(_) => e,
        ExprView::MemoryCopy(x) => ExprView::MemoryCopy(
            MemoryCopy {
                dst_offset: nowhere(),
                src_offset: nowhere(),
                len: nowhere(),
                ..x
            },
        ),
        ExprView::MemoryFill(x) => ExprView::MemoryFill(
            MemoryFill {
                offset: nowhere(),
                value: nowhere(),
                len: nowhere(),
                ..x
            },
        ),
        ExprView::Load(x) => ExprView::Load(Load { address: nowhere(), ..x }),
        ExprView::Store(x) => ExprView::Store(Store { address: nowhere(), value: nowhere(), ..x }),
        ExprView::AtomicRmw(x) => ExprView::AtomicRmw(
            AtomicRmw {
                address: nowhere(),
                value: nowhere(),
                ..x
            },
        ),
        ExprView::Cmpxchg(x) => ExprView::Cmpxchg(
            Cmpxchg {
                address: nowhere(),
                expected: nowhere(),
                replacement: nowhere(),
                ..x
            },
        ),
        ExprView::AtomicNotify(x) => ExprView::AtomicNotify(
            AtomicNotify {
                address: nowhere(),
                count: nowhere(),
                ..x
            },
        ),
        ExprView::AtomicWait(x) => ExprView::AtomicWait(
            AtomicWait {
                address: nowhere(),
                expected: nowhere(),
                timeout: nowhere(),
                ..x
            },
        ),
    }
}

/// Whether `now` is the node `was` but for its operands: the same kind of node with the
/// same operator, literal, memory access, local, global, callee, label and types, and as
/// many operands. The arms of a conditional are the same.
#[verifier::opaque]
pub open spec fn agrees(now: ExprView, was: ExprView) -> bool {
    form_of(now) == form_of(was)
}

/// A node with an operand replaced, other than an arm of a conditional, agrees with
/// whatever the node agreed with, and has its other operands.
pub proof fn lemma_agrees_patched(now: ExprView, was: ExprView, k: int, child: ExprId)
    requires
        agrees(now, was),
        0 <= k < now.children().len(),
        now is IfElse ==> k == 0,
    ensures
        agrees(now.with_child(k, child), was),
        now.with_child(k, child).children() == now.children().update(k, child),
{
    reveal(agrees);
    lemma_form_with_child(now, k, child);
}

/// A node agrees with itself.
pub proof fn lemma_agrees_itself(e: ExprView)
    ensures
        agrees(e, e),
{
    reveal(agrees);
}

/// Nodes that agree have as many operands.
pub proof fn lemma_form_children(now: ExprView, was: ExprView)
    requires
        agrees(now, was),
    ensures
        now.children().len() == was.children().len(),
        form_of(now) == form_of(was),
{
    reveal(agrees);
    lemma_form_length(now);
    lemma_form_length(was);
}

/// The form of a node has as many operands as the node.
pub proof fn lemma_form_length(e: ExprView)
    ensures
        form_of(e).children().len() == e.children().len(),
{
}

/// Replacing an operand of a node, other than an arm of a conditional, leaves the form of
/// the node as it was.
#[verifier::rlimit(60)]
pub proof fn lemma_form_with_child(e: ExprView, k: int, child: ExprId)
    requires
        0 <= k < e.children().len(),
        e is IfElse ==> k == 0,
    ensures
        form_of(e.with_child(k, child)) == form_of(e),
        e.with_child(k, child).children() == e.children().update(k, child),
{
    assert(e.with_child(k, child).children() =~= e.children().update(k, child));
    match e {
        ExprView::Block(x) => {
            assert(Seq::new(x.exprs.update(k, child).len(), |i: int| nowhere()) =~= Seq::new(
                x.exprs.len(),
                |i: int| nowhere(),
            ));
        },
        ExprView::Call(x) => {
            assert(Seq::new(x.args.update(k, child).len(), |i: int| nowhere()) =~= Seq::new(
                x.args.len(),
                |i: int| nowhere(),
            ));
        },
        ExprView::CallIndirect(x) => {
            if k < x.args.len() {
                assert(Seq::new(x.args.update(k, child).len(), |i: int| nowhere()) =~= Seq::new(
                    x.args.len(),
                    |i: int| nowhere(),
                ));
            }
        },
        ExprView::Br(x) => {
            assert(Seq::new(x.args.update(k, child).len(), |i: int| nowhere()) =~= Seq::new(
                x.args.len(),
                |i: int| nowhere(),
            ));
        },
        ExprView::BrIf(x) => {
            if k < x.args.len() {
                assert(Seq::new(x.args.update(k, child).len(), |i: int| nowhere()) =~= Seq::new(
                    x.args.len(),
                    |i: int| nowhere(),
                ));
            }
        },
        ExprView::BrTable(x) => {
            if k < x.args.len() {
                assert(Seq::new(x.args.update(k, child).len(), |i: int| nowhere()) =~= Seq::new(
                    x.args.len(),
                    |i: int| nowhere(),
                ));
            }
        },
        ExprView::Return(x) => {
            assert(Seq::new(x.values.update(k, child).len(), |i: int| nowhere()) =~= Seq::new(
                x.values.len(),
                |i: int| nowhere(),
            ));
        },
        _ => {},
    }
}

/// Whether the operands of `now`, which stand for the operands of `was`, are recorded as
/// rewritten 64-bit producers exactly where the operands of `was` produce a 64-bit value.
pub open spec fn operands_recorded(
    phase: &RemoveI64,
    scope: Scope,
    nodes: Seq<ExprView>,
    now: ExprView,
    was: ExprView,
) -> bool {
    forall|k: int|
        0 <= k < was.children().len() ==> (phase.low_bits@.contains_key(
            (#[trigger] now.children()[k]).index,
        ) <==> wide(scope, nodes, was.children()[k].index as int))
}

/// The second phase does not refuse a node that it is sure to rewrite, and takes it for a
/// producer of a 64-bit value exactly if it produces one.
///
/// Here `was` is the node at `id` before the phase, among `nodes`, read against `scope`;
/// `now` is what the node has become by the time its operands have been visited; and
/// `locals` are the locals by then.
pub proof fn lemma_supported_accepted(
    phase: &RemoveI64,
    env: &Env,
    func: &LocalFunction,
    locals: Seq<LocalView>,
    scope: Scope,
    nodes: Seq<ExprView>,
    entry: ExprId,
    id: ExprId,
    now: ExprView,
)
    requires
        0 <= id.index < nodes.len(),
        env.wf(),
        scope.globals == env.globals@,
        scope.types == env.types@,
        scope.callees == env.analysis.old_function_types@,
        scope.locals.len() <= locals.len(),
        forall|i: int| 0 <= i < scope.locals.len() ==> locals[i] == scope.locals[i],
        accessed_local(nodes[id.index as int]) matches Some(l) ==> l.index < scope.locals.len(),
        agrees(now, nodes[id.index as int]),
        now.children().len() == nodes[id.index as int].children().len(),
        operands_recorded(phase, scope, nodes, now, nodes[id.index as int]),
        nodes[id.index as int] matches ExprView::Block(b) ==> (phase.low_bits@.contains_key(
            id.index,
        ) <==> RemoveI64::yields_i64(b)),
        nodes[id.index as int] matches ExprView::IfElse(e) ==> nodes[e.consequent.id.index as int] is Block,
        nodes[id.index as int] matches ExprView::IfElse(e) ==> (filled(nodes, e.consequent.id)
            ==> filled(func.nodes(), e.consequent.id)) && (filled(nodes, e.alternative.id)
            ==> filled(func.nodes(), e.alternative.id)),
        nodes[id.index as int] matches ExprView::Br(e) ==> narrow_operands(
            scope,
            nodes,
            nodes[id.index as int],
        ) || phase.low_bits@.contains_key(e.block.id.index),
        supported(scope, nodes, entry, id.index as int),
    ensures
        phase.refusal(env, func, locals, id, now) is None,
        !(now is Block) ==> (phase.widens(env, locals, now) <==> wide(
            scope,
            nodes,
            id.index as int,
        )),
{
    reveal(agrees);
    let was = nodes[id.index as int];
    let low = |e: ExprId| phase.low_bits@.contains_key(e.index);
    assert(forall|k: int|
        0 <= k < was.children().len() ==> (low(#[trigger] now.children()[k]) <==> wide(
            scope,
            nodes,
            was.children()[k].index as int,
        )));
    if narrow_operands(scope, nodes, was) {
        assert(!phase.carries_i64(now));
    }
    assert(form_of(now) == form_of(was));
    match was {
        ExprView::Block(e) => {
            assert(now is Block);
            assert(now->Block_0.results == e.results);
            assert(now->Block_0.exprs.len() == e.exprs.len());
            assert(phase.refusal(env, func, locals, id, now) is None);
            assert(!(now is Block) ==> (phase.widens(env, locals, now) <==> wide(
                scope,
                nodes,
                id.index as int,
            )));
        },
        ExprView::Call(e) => {
            assert(now is Call);
            assert(now->Call_0.func == e.func);
            assert(phase.refusal(env, func, locals, id, now) is None);
            assert(!(now is Block) ==> (phase.widens(env, locals, now) <==> wide(
                scope,
                nodes,
                id.index as int,
            )));
        },
        ExprView::CallIndirect(e) => {
            assert(now is CallIndirect);
            assert(now->CallIndirect_0.ty == e.ty);
            assert(phase.refusal(env, func, locals, id, now) is None);
            assert(!(now is Block) ==> (phase.widens(env, locals, now) <==> wide(
                scope,
                nodes,
                id.index as int,
            )));
        },
        ExprView::LocalGet(e) => {
            assert(now is LocalGet);
            assert(now->LocalGet_0.local == e.local);
            assert(phase.refusal(env, func, locals, id, now) is None);
            assert(!(now is Block) ==> (phase.widens(env, locals, now) <==> wide(
                scope,
                nodes,
                id.index as int,
            )));
        },
        ExprView::LocalSet(e) => {
            assert(now is LocalSet);
            assert(now->LocalSet_0.local == e.local);
            assert(now.children()[0] == now->LocalSet_0.value);
            assert(was.children()[0] == e.value);
            assert(phase.refusal(env, func, locals, id, now) is None);
            assert(!(now is Block) ==> (phase.widens(env, locals, now) <==> wide(
                scope,
                nodes,
                id.index as int,
            )));
        },
        ExprView::LocalTee(e) => {
            assert(now is LocalTee);
            assert(now->LocalTee_0.local == e.local);
            assert(now.children()[0] == now->LocalTee_0.value);
            assert(was.children()[0] == e.value);
            assert(phase.refusal(env, func, locals, id, now) is None);
            assert(!(now is Block) ==> (phase.widens(env, locals, now) <==> wide(
                scope,
                nodes,
                id.index as int,
            )));
        },
        ExprView::GlobalGet(e) => {
            assert(now is GlobalGet);
            assert(now->GlobalGet_0.global == e.global);
            assert(phase.refusal(env, func, locals, id, now) is None);
            assert(!(now is Block) ==> (phase.widens(env, locals, now) <==> wide(
                scope,
                nodes,
                id.index as int,
            )));
        },
        ExprView::GlobalSet(e) => {
            assert(now is GlobalSet);
            assert(now->GlobalSet_0.global == e.global);
            assert(now.children()[0] == now->GlobalSet_0.value);
            assert(was.children()[0] == e.value);
            assert(phase.refusal(env, func, locals, id, now) is None);
            assert(!(now is Block) ==> (phase.widens(env, locals, now) <==> wide(
                scope,
                nodes,
                id.index as int,
            )));
        },
        ExprView::Const(e) => {
            assert(now is Const);
            assert(now->Const_0.value == e.value);
            assert(phase.refusal(env, func, locals, id, now) is None);
            assert(!(now is Block) ==> (phase.widens(env, locals, now) <==> wide(
                scope,
                nodes,
                id.index as int,
            )));
        },
        ExprView::Binop(e) => {
            assert(now is Binop);
            assert(now->Binop_0.op == e.op);
            assert(now.children()[0] == now->Binop_0.lhs);
            assert(now.children()[1] == now->Binop_0.rhs);
            assert(was.children()[0] == e.lhs);
            assert(was.children()[1] == e.rhs);
            assert(phase.refusal(env, func, locals, id, now) is None);
            assert(!(now is Block) ==> (phase.widens(env, locals, now) <==> wide(
                scope,
                nodes,
                id.index as int,
            )));
        },
        ExprView::Unop(e) => {
            assert(now is Unop);
            assert(now->Unop_0.op == e.op);
            assert(now.children()[0] == now->Unop_0.expr);
            assert(was.children()[0] == e.expr);
            assert(phase.refusal(env, func, locals, id, now) is None);
            assert(!(now is Block) ==> (phase.widens(env, locals, now) <==> wide(
                scope,
                nodes,
                id.index as int,
            )));
        },
        ExprView::Select(e) => {
            assert(now is Select);
            assert(phase.refusal(env, func, locals, id, now) is None);
            assert(!(now is Block) ==> (phase.widens(env, locals, now) <==> wide(
                scope,
                nodes,
                id.index as int,
            )));
        },
        ExprView::Unreachable(e) => {
            assert(now is Unreachable);
            assert(phase.refusal(env, func, locals, id, now) is None);
            assert(!(now is Block) ==> (phase.widens(env, locals, now) <==> wide(
                scope,
                nodes,
                id.index as int,
            )));
        },
        ExprView::Br(e) => {
            assert(now is Br);
            assert(now->Br_0.block == e.block);
            assert(now->Br_0.args.len() == e.args.len());
            assert(phase.refusal(env, func, locals, id, now) is None);
            assert(!(now is Block) ==> (phase.widens(env, locals, now) <==> wide(
                scope,
                nodes,
                id.index as int,
            )));
        },
        ExprView::BrIf(e) => {
            assert(now is BrIf);
            assert(phase.refusal(env, func, locals, id, now) is None);
            assert(!(now is Block) ==> (phase.widens(env, locals, now) <==> wide(
                scope,
                nodes,
                id.index as int,
            )));
        },
        ExprView::IfElse(e) => {
            assert(now is IfElse);
            assert(now->IfElse_0.consequent == e.consequent);
            assert(now->IfElse_0.alternative == e.alternative);
            assert(now.children()[1] == now->IfElse_0.consequent.id);
            assert(was.children()[1] == e.consequent.id);
            assert(now.children()[2] == now->IfElse_0.alternative.id);
            assert(was.children()[2] == e.alternative.id);
            assert(phase.refusal(env, func, locals, id, now) is None);
            assert(!(now is Block) ==> (phase.widens(env, locals, now) <==> wide(
                scope,
                nodes,
                id.index as int,
            )));
        },
        ExprView::BrTable(e) => {
            assert(now is BrTable);
            assert(phase.refusal(env, func, locals, id, now) is None);
            assert(!(now is Block) ==> (phase.widens(env, locals, now) <==> wide(
                scope,
                nodes,
                id.index as int,
            )));
        },
        ExprView::Drop(e) => {
            assert(now is Drop);
            assert(phase.refusal(env, func, locals, id, now) is None);
            assert(!(now is Block) ==> (phase.widens(env, locals, now) <==> wide(
                scope,
                nodes,
                id.index as int,
            )));
        },
        ExprView::Return(e) => {
            assert(now is Return);
            assert(phase.refusal(env, func, locals, id, now) is None);
            assert(!(now is Block) ==> (phase.widens(env, locals, now) <==> wide(
                scope,
                nodes,
                id.index as int,
            )));
        },
        ExprView::MemorySize(e) => {
            assert(now is MemorySize);
            assert(phase.refusal(env, func, locals, id, now) is None);
            assert(!(now is Block) ==> (phase.widens(env, locals, now) <==> wide(
                scope,
                nodes,
                id.index as int,
            )));
        },
        ExprView::MemoryGrow(e) => {
            assert(now is MemoryGrow);
            assert(phase.refusal(env, func, locals, id, now) is None);
            assert(!(now is Block) ==> (phase.widens(env, locals, now) <==> wide(
                scope,
                nodes,
                id.index as int,
            )));
        },
        ExprView::MemoryInit(e) => {
            assert(now is MemoryInit);
            assert(phase.refusal(env, func, locals, id, now) is None);
            assert(!(now is Block) ==> (phase.widens(env, locals, now) <==> wide(
                scope,
                nodes,
                id.index as int,
            )));
        },
        ExprView::DataDrop(e) => {
            assert(now is DataDrop);
            assert(phase.refusal(env, func, locals, id, now) is None);
            assert(!(now is Block) ==> (phase.widens(env, locals, now) <==> wide(
                scope,
                nodes,
                id.index as int,
            )));
        },
        ExprView::MemoryCopy(e) => {
            assert(now is MemoryCopy);
            assert(phase.refusal(env, func, locals, id, now) is None);
            assert(!(now is Block) ==> (phase.widens(env, locals, now) <==> wide(
                scope,
                nodes,
                id.index as int,
            )));
        },
        ExprView::MemoryFill(e) => {
            assert(now is MemoryFill);
            assert(phase.refusal(env, func, locals, id, now) is None);
            assert(!(now is Block) ==> (phase.widens(env, locals, now) <==> wide(
                scope,
                nodes,
                id.index as int,
            )));
        },
        ExprView::Load(e) => {
            assert(now is Load);
            assert(now->Load_0.kind == e.kind);
            assert(now->Load_0.arg == e.arg);
            assert(phase.refusal(env, func, locals, id, now) is None);
            assert(!(now is Block) ==> (phase.widens(env, locals, now) <==> wide(
                scope,
                nodes,
                id.index as int,
            )));
        },
        ExprView::Store(e) => {
            assert(now is Store);
            assert(now->Store_0.kind == e.kind);
            assert(now->Store_0.arg == e.arg);
            assert(now.children()[1] == now->Store_0.value);
            assert(was.children()[1] == e.value);
            assert(phase.refusal(env, func, locals, id, now) is None);
            assert(!(now is Block) ==> (phase.widens(env, locals, now) <==> wide(
                scope,
                nodes,
                id.index as int,
            )));
        },
        ExprView::AtomicRmw(e) => {
            assert(now is AtomicRmw);
            assert(now->AtomicRmw_0.width == e.width);
            assert(phase.refusal(env, func, locals, id, now) is None);
            assert(!(now is Block) ==> (phase.widens(env, locals, now) <==> wide(
                scope,
                nodes,
                id.index as int,
            )));
        },
        ExprView::Cmpxchg(e) => {
            assert(now is Cmpxchg);
            assert(now->Cmpxchg_0.width == e.width);
            assert(phase.refusal(env, func, locals, id, now) is None);
            assert(!(now is Block) ==> (phase.widens(env, locals, now) <==> wide(
                scope,
                nodes,
                id.index as int,
            )));
        },
        ExprView::AtomicNotify(e) => {
            assert(now is AtomicNotify);
            assert(phase.refusal(env, func, locals, id, now) is None);
            assert(!(now is Block) ==> (phase.widens(env, locals, now) <==> wide(
                scope,
                nodes,
                id.index as int,
            )));
        },
        ExprView::AtomicWait(e) => {
            assert(now is AtomicWait);
            assert(phase.refusal(env, func, locals, id, now) is None);
            assert(!(now is Block) ==> (phase.widens(env, locals, now) <==> wide(
                scope,
                nodes,
                id.index as int,
            )));
        },
    }
}

/// Whether the second phase is sure to rewrite every node that the body reaches from
/// `root`.
pub open spec fn body_supported(
    scope: Scope,
    nodes: Seq<ExprView>,
    entry: ExprId,
    root: ExprId,
) -> bool {
    forall|x: int|
        0 <= x < nodes.len() && #[trigger] reachable(nodes, root, x) ==> supported(
            scope,
            nodes,
            entry,
            x,
        )
}

/// Where the second phase is sure to rewrite every node that a body reaches from `root`,
/// it is sure to rewrite `root` and every node that the body reaches from an operand of
/// `root`.
pub proof fn lemma_body_supported_child(
    scope: Scope,
    nodes: Seq<ExprView>,
    entry: ExprId,
    root: ExprId,
    k: int,
)
    requires
        body_supported(scope, nodes, entry, root),
        0 <= root.index < nodes.len(),
        0 <= k < nodes[root.index as int].children().len(),
    ensures
        body_supported(scope, nodes, entry, nodes[root.index as int].children()[k]),
{
    let child = nodes[root.index as int].children()[k];
    assert forall|x: int| 0 <= x < nodes.len() && #[trigger] reachable(nodes, child, x) implies supported(
        scope,
        nodes,
        entry,
        x,
    ) by {
        lemma_reach_through(nodes, root, k, x);
    }
}

/// The position of the node that stands for the node at position `i` once the phase has
/// come as far with it as `mark` says: the node that took its place, or the node itself.
pub open spec fn key_of(mark: Mark, i: int) -> int {
    match mark {
        Mark::Done(Some(other)) => other.index as int,
        _ => i,
    }
}

/// Whether the record of low-bits locals, which holds the positions `low`, tells of the
/// node at position `i` what the reading of the body tells: a node that has not been reached
/// is not recorded; a node that is being visited is recorded exactly if it is a block of a
/// single 64-bit result; and what stands for a node that the phase is done with is recorded
/// exactly if the node produces a 64-bit value.
pub open spec fn typed_at(
    scope: Scope,
    orig: Seq<ExprView>,
    marks: Seq<Mark>,
    low: Set<usize>,
    i: int,
) -> bool {
    match marks[i] {
        Mark::Unseen => !low.contains(i as usize),
        Mark::Active => low.contains(i as usize) <==> (orig[i] matches ExprView::Block(b)
            && RemoveI64::yields_i64(b)),
        Mark::Done(_) => low.contains(key_of(marks[i], i) as usize) <==> wide(scope, orig, i),
    }
}

/// Whether the record of low-bits locals tells of every node what the reading of the body
/// tells, and records nodes of the arena only, which holds `size` nodes; and every node that
/// took the place of another was created by the phase.
pub open spec fn typed(
    scope: Scope,
    orig: Seq<ExprView>,
    marks: Seq<Mark>,
    low: Set<usize>,
    size: nat,
) -> bool {
    &&& marks.len() == orig.len()
    &&& orig.len() <= size <= usize::MAX
    &&& forall|k: usize| #[trigger] low.contains(k) ==> k < size
    &&& forall|i: int| 0 <= i < orig.len() ==> #[trigger] typed_at(scope, orig, marks, low, i)
    &&& forall|i: int|
        0 <= i < orig.len() ==> (#[trigger] marks[i] matches Mark::Done(Some(other))
            ==> orig.len() <= other.index < size)
}

/// The record stays in tune when a node that had not been reached starts being visited
/// and, if it is a block of a single 64-bit result, is recorded.
pub proof fn lemma_typed_entered(
    scope: Scope,
    orig: Seq<ExprView>,
    marks: Seq<Mark>,
    low: Set<usize>,
    size: nat,
    id: int,
    low_after: Set<usize>,
)
    requires
        typed(scope, orig, marks, low, size),
        0 <= id < orig.len(),
        marks[id] is Unseen,
        low_after == (if orig[id] matches ExprView::Block(b) && RemoveI64::yields_i64(b) {
            low.insert(id as usize)
        } else {
            low
        }),
    ensures
        typed(scope, orig, marks.update(id, Mark::Active), low_after, size),
{
    let after = marks.update(id, Mark::Active);
    assert forall|i: int| 0 <= i < orig.len() implies #[trigger] typed_at(
        scope,
        orig,
        after,
        low_after,
        i,
    ) by {
        assert(typed_at(scope, orig, marks, low, i));
        if i != id {
            assert(after[i] == marks[i]);
        }
    }
    assert forall|i: int|
        0 <= i < orig.len() && (#[trigger] after[i] matches Mark::Done(Some(other))) implies orig.len()
        <= after[i]->Done_0->0.index < size by {
        assert(after[i] == marks[i]);
    }
}

/// The record stays in tune when the phase is done with the node that it was visiting,
/// where nothing was taken from the record, nothing was added but for the node that stands
/// for the visited node afterwards, and that node is recorded exactly if the visited node
/// produces a 64-bit value.
pub proof fn lemma_typed_left(
    scope: Scope,
    orig: Seq<ExprView>,
    marks: Seq<Mark>,
    low: Set<usize>,
    size: nat,
    id: int,
    found: Option<ExprId>,
    low_after: Set<usize>,
    size_after: nat,
)
    requires
        typed(scope, orig, marks, low, size),
        0 <= id < orig.len(),
        marks[id] is Active,
        size <= size_after <= usize::MAX,
        found matches Some(other) ==> size <= other.index < size_after,
        forall|k: usize| low.contains(k) ==> #[trigger] low_after.contains(k),
        forall|k: usize| #[trigger]
            low_after.contains(k) && !low.contains(k) ==> k == key_of(Mark::Done(found), id),
        low_after.contains(key_of(Mark::Done(found), id) as usize) <==> wide(scope, orig, id),
    ensures
        typed(scope, orig, marks.update(id, Mark::Done(found)), low_after, size_after),
{
    let after = marks.update(id, Mark::Done(found));
    let key = key_of(Mark::Done(found), id);
    assert forall|i: int| 0 <= i < orig.len() implies #[trigger] typed_at(
        scope,
        orig,
        after,
        low_after,
        i,
    ) by {
        assert(typed_at(scope, orig, marks, low, i));
        if i != id {
            assert(after[i] == marks[i]);
            let other = key_of(marks[i], i);
            assert(other != key);
            assert(low_after.contains(other as usize) <==> low.contains(other as usize));
            assert(low_after.contains(i as usize) <==> low.contains(i as usize));
        }
    }
    assert forall|i: int|
        0 <= i < orig.len() && (#[trigger] after[i] matches Mark::Done(Some(other))) implies orig.len()
        <= after[i]->Done_0->0.index < size_after by {
        if i != id {
            assert(after[i] == marks[i]);
        }
    }
}

/// Whether the two scopes tell the same of what the node names: whether its global or
/// local is a 64-bit one, and whether its callee or signature mentions a 64-bit integer.
pub open spec fn same_reading(a: Scope, b: Scope, e: ExprView) -> bool {
    match e {
        ExprView::GlobalGet(g) => is_i64_global(a.globals, g.global) == is_i64_global(
            b.globals,
            g.global,
        ),
        ExprView::GlobalSet(g) => is_i64_global(a.globals, g.global) == is_i64_global(
            b.globals,
            g.global,
        ),
        ExprView::LocalGet(l) => is_i64_local(a.locals, l.local) == is_i64_local(b.locals, l.local),
        ExprView::LocalSet(l) => is_i64_local(a.locals, l.local) == is_i64_local(b.locals, l.local),
        ExprView::LocalTee(l) => is_i64_local(a.locals, l.local) == is_i64_local(b.locals, l.local),
        ExprView::Call(c) => callee_mentions_i64(a, c.func) == callee_mentions_i64(b, c.func),
        ExprView::CallIndirect(c) => type_mentions_i64(a.types, c.ty) == type_mentions_i64(
            b.types,
            c.ty,
        ),
        _ => true,
    }
}

/// Whether the two scopes tell the same of what every node of the arena names.
pub open spec fn scopes_agree(a: Scope, b: Scope, nodes: Seq<ExprView>) -> bool {
    forall|i: int| 0 <= i < nodes.len() ==> same_reading(a, b, #[trigger] nodes[i])
}

/// Against scopes that tell the same of every node, the same nodes of a well-formed arena
/// produce a 64-bit value, and the second phase is sure to rewrite the same nodes.
pub proof fn lemma_supported_rescoped(
    a: Scope,
    b: Scope,
    nodes: Seq<ExprView>,
    tag: u32,
    entry: ExprId,
    i: int,
)
    requires
        scopes_agree(a, b, nodes),
        nodes_ok(nodes, tag),
        0 <= i < nodes.len(),
    ensures
        wide(a, nodes, i) == wide(b, nodes, i),
        supported(a, nodes, entry, i) == supported(b, nodes, entry, i),
{
    let e = nodes[i];
    assert(same_reading(a, b, e));
    assert(node_ok(nodes, tag, e));
    assert forall|k: int| 0 <= k < e.children().len() implies wide(
        a,
        nodes,
        (#[trigger] e.children()[k]).index as int,
    ) == wide(b, nodes, e.children()[k].index as int) by {
        let c = e.children()[k];
        assert(valid_id(nodes, tag, c));
        assert(same_reading(a, b, nodes[c.index as int]));
        if let ExprView::IfElse(x) = nodes[c.index as int] {
            assert(node_ok(nodes, tag, nodes[c.index as int]));
        }
    }
    assert(narrow_operands(a, nodes, e) == narrow_operands(b, nodes, e));
    match e {
        ExprView::GlobalSet(x) => {
            assert(x.value == e.children()[0]);
        },
        ExprView::LocalSet(x) => {
            assert(x.value == e.children()[0]);
        },
        ExprView::LocalTee(x) => {
            assert(x.value == e.children()[0]);
        },
        ExprView::Binop(x) => {
            assert(x.lhs == e.children()[0]);
            assert(x.rhs == e.children()[1]);
        },
        ExprView::Unop(x) => {
            assert(x.expr == e.children()[0]);
        },
        ExprView::Store(x) => {
            assert(x.value == e.children()[1]);
        },
        _ => {},
    }
}

/// Against scopes that tell the same of every node, the second phase is sure to rewrite
/// the same bodies.
pub proof fn lemma_body_supported_rescoped(
    a: Scope,
    b: Scope,
    nodes: Seq<ExprView>,
    tag: u32,
    entry: ExprId,
    root: ExprId,
)
    requires
        body_supported(a, nodes, entry, root),
        scopes_agree(a, b, nodes),
        nodes_ok(nodes, tag),
    ensures
        body_supported(b, nodes, entry, root),
{
    assert forall|x: int| 0 <= x < nodes.len() && #[trigger] reachable(nodes, root, x) implies supported(
        b,
        nodes,
        entry,
        x,
    ) by {
        lemma_supported_rescoped(a, b, nodes, tag, entry, x);
    }
}

/// Whether the body reaches the node at `id` from its entry `entry` and, where every node
/// of the body is an operand of one node at most, every other node of the body that reaches
/// the node at `id` is being visited.
pub open spec fn climbing(nodes: Seq<ExprView>, entry: ExprId, marks: Seq<Mark>, id: ExprId) -> bool {
    &&& reachable(nodes, entry, id.index as int)
    &&& single_parent(nodes, entry) ==> forall|t: usize|
        t < nodes.len() && t != id.index && reachable(nodes, entry, t as int) && #[trigger] reachable(
            nodes,
            ExprId { arena: entry.arena, index: t },
            id.index as int,
        ) ==> marks[t as int] is Active
}

/// Where the body reaches a node whose enclosing nodes are being visited, and the node
/// itself is being visited too, the enclosing nodes of each of its operands are being
/// visited.
pub proof fn lemma_climb(
    nodes: Seq<ExprView>,
    tag: u32,
    entry: ExprId,
    marks: Seq<Mark>,
    later: Seq<Mark>,
    id: ExprId,
    k: int,
)
    requires
        nodes_ok(nodes, tag),
        climbing(nodes, entry, marks, id),
        0 <= id.index < nodes.len(),
        0 <= k < nodes[id.index as int].children().len(),
        marks.len() == nodes.len(),
        later.len() == nodes.len(),
        forall|t: int|
            0 <= t < nodes.len() && (#[trigger] marks[t] is Active || t == id.index)
                ==> later[t] is Active,
    ensures
        climbing(nodes, entry, later, nodes[id.index as int].children()[k]),
{
    let child = nodes[id.index as int].children()[k];
    lemma_child_reachable(nodes, entry, id.index as int, k);
    assert forall|i: int, j: int|
        0 <= i < nodes.len() && 0 <= j < nodes[i].children().len() implies (
    #[trigger] nodes[i].children()[j]).index < nodes.len() by {
        assert(node_ok(nodes, tag, nodes[i]));
        assert(valid_id(nodes, tag, nodes[i].children()[j]));
    }
    if single_parent(nodes, entry) {
        assert forall|t: usize|
            t < nodes.len() && t != child.index && reachable(nodes, entry, t as int)
                && #[trigger] reachable(
                nodes,
                ExprId { arena: entry.arena, index: t },
                child.index as int,
            ) implies later[t as int] is Active by {
            let from = ExprId { arena: entry.arena, index: t };
            lemma_only_through_parent(nodes, entry, from, id, k);
            if t != id.index {
                assert(marks[t as int] is Active);
            }
        }
    }
}

/// The entry of an acyclic body is enclosed by no node of the body.
pub proof fn lemma_climb_entry(nodes: Seq<ExprView>, rank: Seq<nat>, entry: ExprId, marks: Seq<Mark>)
    requires
        ranked(nodes, rank),
        0 <= entry.index < nodes.len(),
    ensures
        climbing(nodes, entry, marks, entry),
{
    assert(reachable(nodes, entry, entry.index as int));
    assert forall|t: usize|
        t < nodes.len() && t != entry.index && reachable(nodes, entry, t as int)
            && #[trigger] reachable(
            nodes,
            ExprId { arena: entry.arena, index: t },
            entry.index as int,
        ) implies marks[t as int] is Active by {
        let from = ExprId { arena: entry.arena, index: t };
        lemma_reach_rank(nodes, rank, entry, t as int);
        lemma_reach_rank(nodes, rank, from, entry.index as int);
    }
}

/// Whether a branch at `id` that carries a 64-bit value has a target that is a block of a
/// single 64-bit result and is being visited.
pub open spec fn target_entered(
    scope: Scope,
    nodes: Seq<ExprView>,
    marks: Seq<Mark>,
    id: ExprId,
) -> bool {
    nodes[id.index as int] matches ExprView::Br(e) ==> narrow_operands(
        scope,
        nodes,
        nodes[id.index as int],
    ) || {
        &&& e.block.id.index < nodes.len()
        &&& nodes[e.block.id.index as int] matches ExprView::Block(b)
        &&& RemoveI64::yields_i64(b)
        &&& marks[e.block.id.index as int] is Active
    }
}

/// A branch that the second phase is sure to rewrite, and whose enclosing nodes are being
/// visited, has a target that is being visited where it carries a 64-bit value.
pub proof fn lemma_target_entered(
    scope: Scope,
    nodes: Seq<ExprView>,
    entry: ExprId,
    marks: Seq<Mark>,
    id: ExprId,
)
    requires
        0 <= id.index < nodes.len(),
        supported(scope, nodes, entry, id.index as int),
        climbing(nodes, entry, marks, id),
    ensures
        target_entered(scope, nodes, marks, id),
{
    if let ExprView::Br(e) = nodes[id.index as int] {
        if !narrow_operands(scope, nodes, nodes[id.index as int]) {
            let t = e.block.id.index;
            let from = ExprId { arena: entry.arena, index: t };
            assert(reachable(nodes, from, id.index as int)) by {
                assert(reachable(nodes, e.block.id, id.index as int));
                assert forall|s: Set<int>|
                    #[trigger] closed_under_children(nodes, s) && s.contains(
                        from.index as int,
                    ) implies s.contains(id.index as int) by {}
            }
        }
    }
}

} // verus!
