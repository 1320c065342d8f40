//! The first phase: some forms that take or produce a 64-bit integer are rewritten into
//! fewer, simpler forms, so that the second phase has fewer shapes to handle.

use vstd::prelude::*;
use vstd::std_specs::hash::*;
use std::collections::HashMap;
use crate::error::{Error, Unimplemented};
use crate::ir::make::{exprs1, exprs2, plain_block, types1};
use crate::ir::node::{
    Block, BlockId, Br, Const, Expr, ExprId, ExprView, IfElse, Load, LocalGet, LocalId, LocalSet,
    MemoryId, Store, Unop,
};
use crate::ir::ops::{ExtendedLoad, LoadKind, MemArg, StoreKind, UnaryOp, Value};
use crate::ir::reach::{
    every_reached, lemma_every_reached_child, lemma_every_reached_from_closed,
    lemma_every_reached_root,
};
use crate::module::functions::local_function::{
    accessed_local, is_block_at, LocalFunction, locals_in_range, node_ok, nodes_ok, valid_id,
};
use crate::module::locals::{LocalView, ModuleLocals};
use crate::passes::remove_i64::names::{numbered, numbered_name};
use crate::passes::remove_i64::shapes::{at, canonical_br_if, canonical_unop, Shape, unop};
use crate::passes::remove_i64::support::{
    agrees, lemma_agrees_itself, lemma_agrees_patched, lemma_form_children,
};
use crate::passes::remove_i64::walk::{
    above, acyclic, body_plain, lemma_unseen_update, Mark, plain_form, ranked, ranking, unseen,
};
use crate::ty::ValType;

verus! {

broadcast use vstd::std_specs::hash::group_hash_axioms;

/// What one moment of the first phase looks like to the next.
pub struct Moment {
    pub marks: Seq<Mark>,
    pub nodes: Seq<ExprView>,
    pub locals: Seq<LocalView>,
    pub changed: bool,
    pub rewritten: bool,
}

/// Whether the node `e` is of a form that the first phase leaves in a body: no
/// reinterpretation between a 64-bit integer and a float, no extension from 8 or 16 bits to
/// 64, and no narrow load or store of a 64-bit integer.
pub open spec fn reduced(e: ExprView) -> bool {
    match e {
        ExprView::Unop(u) => !canonicalized_unop(u.op),
        ExprView::Load(l) => canonical_load(l.kind) is None,
        ExprView::Store(s) => canonical_store(s.kind) is None,
        _ => true,
    }
}

/// Whether every node that the body reaches from `root` is of a form that the first phase
/// leaves in a body.
pub open spec fn body_reduced(nodes: Seq<ExprView>, root: ExprId) -> bool {
    every_reached(nodes, root, |e: ExprView| reduced(e))
}

/// Whether the node at position `i` is part of the rewritten body at the moment `at`: it
/// was created by the phase, which started on `start` nodes, or the phase is done with it
/// and it is of a form that the phase leaves in a body.
pub open spec fn finished_at(start: nat, at: Moment, i: int) -> bool {
    i >= start || (0 <= i && at.marks[i] is Done && reduced(at.nodes[i]))
}

/// Whether the moment `b` can follow the moment `a` while the node at position `cur` is
/// being rewritten: nodes and locals are only added, every other node that is being visited
/// is untouched, what the phase was done with it is still done with, and what was part of
/// the rewritten body still is.
pub open spec fn proceeds(start: nat, cur: int, a: Moment, b: Moment) -> bool {
    &&& a.nodes.len() <= b.nodes.len()
    &&& a.locals.len() <= b.locals.len()
    &&& forall|i: int| 0 <= i < a.locals.len() ==> #[trigger] a.locals[i] == b.locals[i]
    &&& a.changed ==> b.changed
    &&& a.rewritten ==> b.rewritten
    &&& a.marks.len() == b.marks.len()
    &&& forall|i: int|
        0 <= i < start && i != cur && #[trigger] a.marks[i] is Active ==> b.marks[i] is Active
            && b.nodes[i] == a.nodes[i]
    &&& forall|i: int|
        0 <= i < start && i != cur && #[trigger] a.marks[i] is Done ==> b.marks[i] == a.marks[i]
    &&& forall|i: int|
        0 <= i < a.nodes.len() && #[trigger] finished_at(start, a, i) ==> finished_at(start, b, i)
}

/// Whether the node at position `k` is a block of the single result type `ty`.
pub open spec fn recorded_block(nodes: Seq<ExprView>, k: usize, ty: ValType) -> bool {
    &&& k < nodes.len()
    &&& nodes[k as int] matches ExprView::Block(b)
    &&& b.results.len() == 1
    &&& b.results[0] == ty
}

/// Whether the first phase leaves the node `e` of the arena `nodes` as it is: the node is
/// no reinterpretation and no extension from 8 or 16 bits, no narrow load or store of a
/// 64-bit integer, and no conditional branch to a block of a single 64-bit result.
pub open spec fn settled_form(nodes: Seq<ExprView>, e: ExprView) -> bool {
    match e {
        ExprView::Unop(u) => !canonicalized_unop(u.op),
        ExprView::Load(l) => canonical_load(l.kind) is None,
        ExprView::Store(s) => canonical_store(s.kind) is None,
        ExprView::BrIf(b) => !recorded_block(nodes, b.block.id.index, ValType::I64),
        _ => true,
    }
}

/// Whether the first phase leaves every node as it is that the body reaches from `root`.
pub open spec fn body_settled(nodes: Seq<ExprView>, root: ExprId) -> bool {
    every_reached(nodes, root, |e: ExprView| settled_form(nodes, e))
}

/// Whether the first phase accepts the node `e` of the arena `nodes`: a conditional branch
/// to a block of a single 64-bit result carries exactly one value.
pub open spec fn accepted_form(nodes: Seq<ExprView>, e: ExprView) -> bool {
    e matches ExprView::BrIf(b) ==> recorded_block(nodes, b.block.id.index, ValType::I64)
        ==> b.args.len() == 1
}

/// Whether the first phase accepts every node that the body reaches from `root`.
pub open spec fn body_accepted(nodes: Seq<ExprView>, root: ExprId) -> bool {
    every_reached(nodes, root, |e: ExprView| accepted_form(nodes, e))
}

/// Whether the first phase rewrites the operator.
pub open spec fn canonicalized_unop(op: UnaryOp) -> bool {
    op is F64ReinterpretI64 || op is I64ReinterpretF64 || op is I64Extend8S || op is I64Extend16S
}

/// The 32-bit load and the extension that stand for a narrow load of a 64-bit integer,
/// where the first phase rewrites it. An unsigned load of 8 or 16 bits becomes the signed
/// 32-bit load of that width followed by the unsigned extension.
pub open spec fn canonical_load(kind: LoadKind) -> Option<(LoadKind, UnaryOp)> {
    match kind {
        LoadKind::I64_8 { kind: ExtendedLoad::SignExtend } => Some(
            (LoadKind::I32_8 { kind: ExtendedLoad::SignExtend }, UnaryOp::I64ExtendSI32),
        ),
        LoadKind::I64_8 { kind: ExtendedLoad::ZeroExtend } => Some(
            (LoadKind::I32_8 { kind: ExtendedLoad::SignExtend }, UnaryOp::I64ExtendUI32),
        ),
        LoadKind::I64_16 { kind: ExtendedLoad::SignExtend } => Some(
            (LoadKind::I32_16 { kind: ExtendedLoad::SignExtend }, UnaryOp::I64ExtendSI32),
        ),
        LoadKind::I64_16 { kind: ExtendedLoad::ZeroExtend } => Some(
            (LoadKind::I32_16 { kind: ExtendedLoad::SignExtend }, UnaryOp::I64ExtendUI32),
        ),
        LoadKind::I64_32 { kind: ExtendedLoad::SignExtend } => Some(
            (LoadKind::I32 { atomic: false }, UnaryOp::I64ExtendSI32),
        ),
        LoadKind::I64_32 { kind: ExtendedLoad::ZeroExtend } => Some(
            (LoadKind::I32 { atomic: false }, UnaryOp::I64ExtendUI32),
        ),
        _ => None,
    }
}

/// The 32-bit store that stands for a narrow store of a 64-bit integer, where the first
/// phase rewrites it.
pub open spec fn canonical_store(kind: StoreKind) -> Option<StoreKind> {
    match kind {
        StoreKind::I64_8 { atomic: false } => Some(StoreKind::I32_8 { atomic: false }),
        StoreKind::I64_16 { atomic: false } => Some(StoreKind::I32_16 { atomic: false }),
        StoreKind::I64_32 { atomic: false } => Some(StoreKind::I32 { atomic: false }),
        _ => None,
    }
}

/// Computes [`canonical_load`].
pub fn canonical_load_of(kind: LoadKind) -> (found: Option<(LoadKind, UnaryOp)>)
    ensures
        found == canonical_load(kind),
{
    match kind {
        LoadKind::I64_8 { kind: ExtendedLoad::SignExtend } => Some(
            (LoadKind::I32_8 { kind: ExtendedLoad::SignExtend }, UnaryOp::I64ExtendSI32),
        ),
        LoadKind::I64_8 { kind: ExtendedLoad::ZeroExtend } => Some(
            (LoadKind::I32_8 { kind: ExtendedLoad::SignExtend }, UnaryOp::I64ExtendUI32),
        ),
        LoadKind::I64_16 { kind: ExtendedLoad::SignExtend } => Some(
            (LoadKind::I32_16 { kind: ExtendedLoad::SignExtend }, UnaryOp::I64ExtendSI32),
        ),
        LoadKind::I64_16 { kind: ExtendedLoad::ZeroExtend } => Some(
            (LoadKind::I32_16 { kind: ExtendedLoad::SignExtend }, UnaryOp::I64ExtendUI32),
        ),
        LoadKind::I64_32 { kind: ExtendedLoad::SignExtend } => Some(
            (LoadKind::I32 { atomic: false }, UnaryOp::I64ExtendSI32),
        ),
        LoadKind::I64_32 { kind: ExtendedLoad::ZeroExtend } => Some(
            (LoadKind::I32 { atomic: false }, UnaryOp::I64ExtendUI32),
        ),
        _ => None,
    }
}

/// Computes [`canonical_store`].
pub fn canonical_store_of(kind: StoreKind) -> (found: Option<StoreKind>)
    ensures
        found == canonical_store(kind),
{
    match kind {
        StoreKind::I64_8 { atomic: false } => Some(StoreKind::I32_8 { atomic: false }),
        StoreKind::I64_16 { atomic: false } => Some(StoreKind::I32_16 { atomic: false }),
        StoreKind::I64_32 { atomic: false } => Some(StoreKind::I32 { atomic: false }),
        _ => None,
    }
}

/// The state of the first phase on one function.
pub struct LowerI64 {
    /// The memory through which values are reinterpreted.
    pub memory: MemoryId,
    /// How far the traversal has come with each node that the arena held at the start.
    pub marks: Vec<Mark>,
    /// Whether a form that takes or produces a 64-bit integer was met.
    pub changed: bool,
    /// Whether a node was rewritten.
    pub rewritten: bool,
    /// The result type of each block that is being visited and has a single result, by the
    /// position of the block.
    pub blocks: HashMap<usize, ValType>,
    /// Whether the locals that the phase creates receive names.
    pub generate_names: bool,
    /// The nodes that the arena held at the start.
    pub orig: Ghost<Seq<ExprView>>,
    /// The locals that the module had at the start.
    pub locals0: Ghost<Seq<LocalView>>,
    /// A number for each node that the arena held at the start: where the arena was
    /// acyclic, every node has a greater number than each of its operands.
    pub rank: Ghost<Seq<nat>>,
}

impl LowerI64 {
    /// What the traversal keeps of the arena it started on: the nodes it has not reached
    /// are as they were, a block stays a block, a replacement is a node created later, and
    /// as long as no 64-bit form was met nothing has changed.
    pub open spec fn frame(&self, func: &LocalFunction, locals: Seq<LocalView>) -> bool {
        let nodes = func.nodes();
        &&& self.marks@.len() == self.orig@.len()
        &&& self.orig@.len() <= nodes.len()
        &&& forall|i: int|
            0 <= i < self.orig@.len() && self.marks@[i] is Unseen ==> #[trigger] nodes[i]
                == self.orig@[i]
        &&& forall|i: int|
            0 <= i < self.orig@.len() ==> (#[trigger] nodes[i] is Block <==> self.orig@[i] is Block)
        &&& forall|i: int|
            0 <= i < self.orig@.len() ==> (#[trigger] self.marks@[i] matches Mark::Done(Some(r))
                ==> valid_id(nodes, func.tag(), r) && r.index >= self.orig@.len()
                && !(nodes[i] is Block))
        &&& !self.changed ==> {
            &&& nodes == self.orig@
            &&& locals == self.locals0@
            &&& forall|k: usize| #[trigger]
                self.blocks@.contains_key(k) ==> self.blocks@[k] != ValType::I64
        }
        &&& !self.rewritten ==> nodes == self.orig@ && locals == self.locals0@
        &&& !self.changed ==> !self.rewritten
        &&& forall|k: usize| #[trigger]
            self.blocks@.contains_key(k) ==> recorded_block(self.orig@, k, self.blocks@[k])
    }

    /// Whether the node at position `i` is part of the rewritten body: it was created by
    /// this phase, or the phase is done with it and it is of a form that the phase leaves in
    /// a body.
    pub open spec fn finished(&self, nodes: Seq<ExprView>, i: int) -> bool {
        i >= self.orig@.len() || (0 <= i && self.marks@[i] is Done && reduced(nodes[i]))
    }

    /// Whether the rewritten part of the body is of forms that the phase leaves in a body
    /// and refers to itself only.
    pub open spec fn reduction(&self, func: &LocalFunction) -> bool {
        let nodes = func.nodes();
        &&& forall|i: int| self.orig@.len() <= i < nodes.len() ==> reduced(#[trigger] nodes[i])
        &&& forall|i: int|
            0 <= i < self.orig@.len() && self.marks@[i] == Mark::Done(None) ==> reduced(
                #[trigger] nodes[i],
            )
        &&& forall|i: int, k: int|
            0 <= i < nodes.len() && self.finished(nodes, i) && 0 <= k
                < nodes[i].children().len() ==> self.finished(
                nodes,
                (#[trigger] nodes[i].children()[k]).index as int,
            )
    }

    /// The invariant of the phase: the frame holds, the body is well-formed, and its
    /// rewritten part is of forms that the phase leaves in a body.
    pub open spec fn inv(&self, func: &LocalFunction, locals: Seq<LocalView>) -> bool {
        &&& self.frame(func, locals)
        &&& self.reduction(func)
        &&& nodes_ok(func.nodes(), func.tag())
        &&& is_block_at(func.nodes(), func.tag(), func.entry().id)
        &&& locals_in_range(func.nodes(), locals.len())
    }

    /// This moment of the phase.
    pub open spec fn moment(&self, func: &LocalFunction, locals: Seq<LocalView>) -> Moment {
        Moment {
            marks: self.marks@,
            nodes: func.nodes(),
            locals,
            changed: self.changed,
            rewritten: self.rewritten,
        }
    }

    /// Whether the phase, from the moment `before`, has come to this state while the node
    /// at `cur` was being rewritten.
    pub open spec fn follows(
        &self,
        func: &LocalFunction,
        locals: Seq<LocalView>,
        cur: int,
        before: Moment,
    ) -> bool {
        proceeds(self.orig@.len(), cur, before, self.moment(func, locals))
    }

    /// Whether `other` is this state but for its marks, its record of blocks and whether a
    /// 64-bit form was met.
    pub open spec fn same_phase(&self, other: &LowerI64) -> bool {
        &&& self.memory == other.memory
        &&& self.generate_names == other.generate_names
        &&& self.orig == other.orig
        &&& self.locals0 == other.locals0
        &&& self.rank == other.rank
    }

    /// Whether `other` is this state but for its marks.
    pub open spec fn same_but_marks(&self, other: &LowerI64) -> bool {
        &&& self.same_phase(other)
        &&& self.changed == other.changed
        &&& self.rewritten == other.rewritten
        &&& self.blocks == other.blocks
    }

    /// Whether `node` can take the place of a node of the body.
    pub open spec fn admits(func: &LocalFunction, locals: Seq<LocalView>, node: ExprView) -> bool {
        &&& node_ok(func.nodes(), func.tag(), node)
        &&& accessed_local(node) matches Some(l) ==> l.index < locals.len()
    }

    /// Whether `node` can join the rewritten body: it is of a form that the phase leaves
    /// in a body, and its operands are part of the rewritten body.
    pub open spec fn joins(&self, func: &LocalFunction, node: ExprView) -> bool {
        &&& reduced(node)
        &&& forall|k: int|
            0 <= k < node.children().len() ==> self.finished(
                func.nodes(),
                (#[trigger] node.children()[k]).index as int,
            )
    }

    /// Notes that a form that takes or produces a 64-bit integer was met.
    pub fn touch(&mut self, func: &LocalFunction, locals: &ModuleLocals)
        requires
            old(self).inv(func, locals@),
        ensures
            final(self).inv(func, locals@),
            final(self).changed,
            final(self).rewritten,
            final(self).marks == old(self).marks,
            final(self).blocks == old(self).blocks,
            final(self).same_phase(old(self)),
            final(self).follows(func, locals@, -1, old(self).moment(func, locals@)),
    {
        self.changed = true;
        self.rewritten = true;
    }

    /// Creates a local of the given type, named after `name` and its own position where
    /// names are generated.
    pub fn local(
        &self,
        func: &LocalFunction,
        locals: &mut ModuleLocals,
        ty: ValType,
        name: &str,
    ) -> (id: LocalId)
        requires
            self.inv(func, old(locals)@),
            self.changed,
            self.rewritten,
        ensures
            self.inv(func, final(locals)@),
            id.index == old(locals)@.len(),
            final(locals)@ == old(locals)@.push(
                LocalView {
                    ty,
                    name: if self.generate_names {
                        Some(numbered(name@, id.index as nat))
                    } else {
                        None
                    },
                },
            ),
            self.follows(func, final(locals)@, -1, self.moment(func, old(locals)@)),
    {
        let id = locals.add(ty);
        if self.generate_names {
            locals.set_name(id, numbered_name(name, id.index));
        }
        proof {
            assert(locals@ =~= old(locals)@.push(
                LocalView {
                    ty,
                    name: if self.generate_names {
                        Some(numbered(name@, id.index as nat))
                    } else {
                        None
                    },
                },
            ));
            let nodes = func.nodes();
            assert forall|i: int| 0 <= i < nodes.len() implies (#[trigger] accessed_local(
                nodes[i],
            ) matches Some(l) ==> l.index < locals@.len()) by {
                assert(accessed_local(nodes[i]) matches Some(l) ==> l.index < old(locals)@.len());
            }
        }
        id
    }

    /// Adds a node to the body.
    pub fn emit(&self, func: &mut LocalFunction, locals: &ModuleLocals, node: Expr) -> (id: ExprId)
        requires
            self.inv(old(func), locals@),
            self.changed,
            self.rewritten,
            Self::admits(old(func), locals@, node@),
            self.joins(old(func), node@),
        ensures
            self.inv(final(func), locals@),
            final(func).appended(old(func), node@, id),
            self.follows(final(func), locals@, -1, self.moment(old(func), locals@)),
    {
        let id = func.alloc_expr(node);
        proof {
            let before = old(func).nodes();
            let after = func.nodes();
            assert forall|i: int| 0 <= i < after.len() implies node_ok(
                after,
                func.tag(),
                #[trigger] after[i],
            ) by {
                if i < before.len() {
                    assert(node_ok(before, func.tag(), before[i]));
                }
            }
            assert forall|i: int, k: int|
                0 <= i < after.len() && self.finished(after, i) && 0 <= k
                    < after[i].children().len() implies self.finished(
                after,
                (#[trigger] after[i].children()[k]).index as int,
            ) by {
                if i < before.len() {
                    assert(self.finished(before, i));
                    assert(self.finished(before, before[i].children()[k].index as int));
                } else {
                    assert(self.finished(before, node@.children()[k].index as int));
                }
            }
        }
        id
    }

    /// Replaces the node that is being visited.
    pub fn amend(&self, func: &mut LocalFunction, locals: &ModuleLocals, id: ExprId, node: Expr)
        requires
            self.inv(old(func), locals@),
            self.changed,
            self.rewritten,
            old(func).valid(id),
            id.index < self.orig@.len(),
            self.marks@[id.index as int] is Active,
            Self::admits(old(func), locals@, node@),
            node@ is Block <==> old(func).nodes()[id.index as int] is Block,
        ensures
            self.inv(final(func), locals@),
            final(func).same_but_nodes(old(func)),
            final(func).nodes() == old(func).nodes().update(id.index as int, node@),
            self.follows(final(func), locals@, id.index as int, self.moment(old(func), locals@)),
    {
        let slot = func.get_mut(id);
        *slot = node;
        proof {
            let before = old(func).nodes();
            let after = func.nodes();
            assert forall|i: int| 0 <= i < after.len() implies node_ok(
                after,
                func.tag(),
                #[trigger] after[i],
            ) by {
                if i != id.index {
                    assert(node_ok(before, func.tag(), before[i]));
                }
            }
            assert forall|i: int, k: int|
                0 <= i < after.len() && self.finished(after, i) && 0 <= k
                    < after[i].children().len() implies self.finished(
                after,
                (#[trigger] after[i].children()[k]).index as int,
            ) by {
                assert(self.finished(before, i));
                assert(self.finished(before, before[i].children()[k].index as int));
            }
        }
    }

    /// Replaces the operand at position `k` of the node that is being visited.
    pub fn patch(
        &self,
        func: &mut LocalFunction,
        locals: &ModuleLocals,
        id: ExprId,
        k: usize,
        child: ExprId,
    )
        requires
            self.inv(old(func), locals@),
            self.changed,
            self.rewritten,
            old(func).valid(id),
            id.index < self.orig@.len(),
            self.marks@[id.index as int] is Active,
            k < old(func).nodes()[id.index as int].children().len(),
            old(func).valid(child),
            old(func).nodes()[id.index as int] is IfElse ==> k == 0,
        ensures
            self.inv(final(func), locals@),
            final(func).same_but_nodes(old(func)),
            final(func).nodes() == old(func).nodes().update(
                id.index as int,
                old(func).nodes()[id.index as int].with_child(k as int, child),
            ),
            final(func).nodes()[id.index as int].children() == old(func).nodes()[id.index
                as int].children().update(k as int, child),
            self.follows(final(func), locals@, id.index as int, self.moment(old(func), locals@)),
    {
        let ghost node = func.nodes()[id.index as int];
        let slot = func.get_mut(id);
        slot.set_child(k, child);
        proof {
            let before = old(func).nodes();
            let after = func.nodes();
            let patched = node.with_child(k as int, child);
            assert(patched.children() =~= node.children().update(k as int, child));
            assert(node_ok(before, func.tag(), node));
            assert forall|j: int| 0 <= j < patched.children().len() implies valid_id(
                after,
                func.tag(),
                #[trigger] patched.children()[j],
            ) by {
                if j != k {
                    assert(valid_id(before, func.tag(), node.children()[j]));
                }
            }
            assert forall|i: int| 0 <= i < after.len() implies node_ok(
                after,
                func.tag(),
                #[trigger] after[i],
            ) by {
                if i != id.index {
                    assert(node_ok(before, func.tag(), before[i]));
                }
            }
            assert(accessed_local(patched) == accessed_local(node));
            assert forall|i: int, j: int|
                0 <= i < after.len() && self.finished(after, i) && 0 <= j
                    < after[i].children().len() implies self.finished(
                after,
                (#[trigger] after[i].children()[j]).index as int,
            ) by {
                assert(self.finished(before, i));
                assert(self.finished(before, before[i].children()[j].index as int));
            }
        }
    }

    /// Notes that the operands of the node at `id` are about to be visited.
    pub fn begin(&mut self, func: &LocalFunction, locals: &ModuleLocals, id: ExprId)
        requires
            old(self).inv(func, locals@),
            func.valid(id),
            id.index < old(self).orig@.len(),
            old(self).marks@[id.index as int] is Unseen,
        ensures
            final(self).inv(func, locals@),
            final(self).same_but_marks(old(self)),
            final(self).marks@ == old(self).marks@.update(id.index as int, Mark::Active),
            unseen(final(self).marks@) + 1 == unseen(old(self).marks@),
            final(self).follows(func, locals@, -1, old(self).moment(func, locals@)),
    {
        self.marks.set(id.index, Mark::Active);
        proof {
            lemma_unseen_update(old(self).marks@, id.index as int, Mark::Active);
        }
    }

    /// Records that the phase is done with the node at `id`, and which node its parents
    /// must refer to instead, if any.
    pub fn seal(
        &mut self,
        func: &LocalFunction,
        locals: &ModuleLocals,
        id: ExprId,
        replacement: Option<ExprId>,
    )
        requires
            old(self).inv(func, locals@),
            func.valid(id),
            id.index < old(self).orig@.len(),
            old(self).marks@[id.index as int] is Active || old(self).marks@[id.index as int]
                == Mark::Done(None),
            match replacement {
                None => reduced(func.nodes()[id.index as int]),
                Some(r) => func.valid(r) && r.index >= old(self).orig@.len() && !(
                func.nodes()[id.index as int] is Block) && old(self).changed && old(self).rewritten,
            },
            reduced(func.nodes()[id.index as int]) ==> forall|k: int|
                0 <= k < func.nodes()[id.index as int].children().len() ==> old(self).finished(
                    func.nodes(),
                    (#[trigger] func.nodes()[id.index as int].children()[k]).index as int,
                ),
        ensures
            final(self).inv(func, locals@),
            final(self).same_but_marks(old(self)),
            final(self).marks@ == old(self).marks@.update(id.index as int, Mark::Done(replacement)),
            unseen(final(self).marks@) == unseen(old(self).marks@),
            final(self).follows(func, locals@, id.index as int, old(self).moment(func, locals@)),
    {
        self.marks.set(id.index, Mark::Done(replacement));
        proof {
            lemma_unseen_update(old(self).marks@, id.index as int, Mark::Done(replacement));
            let nodes = func.nodes();
            assert forall|i: int|
                0 <= i < nodes.len() && old(self).finished(nodes, i) implies self.finished(
                nodes,
                i,
            ) by {}
            assert forall|i: int, k: int|
                0 <= i < nodes.len() && self.finished(nodes, i) && 0 <= k
                    < nodes[i].children().len() implies self.finished(
                nodes,
                (#[trigger] nodes[i].children()[k]).index as int,
            ) by {
                if i != id.index {
                    assert(old(self).finished(nodes, i));
                }
                assert(old(self).finished(nodes, nodes[i].children()[k].index as int));
            }
        }
    }

    /// Whether the node at `id` is being visited and its operands are part of the
    /// rewritten body, so that the node itself can be rewritten.
    pub open spec fn ready(&self, func: &LocalFunction, locals: Seq<LocalView>, id: ExprId) -> bool {
        &&& self.inv(func, locals)
        &&& func.valid(id)
        &&& id.index < self.orig@.len()
        &&& self.marks@[id.index as int] is Active
        &&& forall|k: int|
            0 <= k < func.nodes()[id.index as int].children().len() ==> self.finished(
                func.nodes(),
                (#[trigger] func.nodes()[id.index as int].children()[k]).index as int,
            )
    }

    /// What rewriting the node at `id` promises, whatever the node: where it succeeds,
    /// the invariant holds again, the phase is done with the node, and `result` is the node
    /// that takes its place, if any; where no 64-bit form had been met and the node is a
    /// plain form, it succeeds and nothing is rewritten.
    pub open spec fn left(
        &self,
        before: &LowerI64,
        func: &LocalFunction,
        func_before: &LocalFunction,
        locals: Seq<LocalView>,
        locals_before: Seq<LocalView>,
        id: ExprId,
        result: Result<Option<ExprId>, Error>,
    ) -> bool {
        &&& result matches Ok(r) ==> {
            &&& self.inv(func, locals)
            &&& self.follows(func, locals, id.index as int, before.moment(func_before, locals_before))
            &&& self.marks@ =~= before.marks@.update(id.index as int, Mark::Done(r))
            &&& func.same_but_nodes(func_before)
            &&& self.same_phase(before)
        }
        &&& !before.changed && plain_form(func_before.nodes()[id.index as int]) ==> result
            == Ok::<Option<ExprId>, Error>(None) && !self.changed
        &&& !before.rewritten && !before.rewrites(func_before.nodes()[id.index as int]) ==> result
            == Ok::<Option<ExprId>, Error>(None) && !self.rewritten
        &&& result matches Err(e) ==> e is Unimplemented
    }

    /// Whether `func_after` and `locals_after` are the arena and the locals once the node
    /// at `id` is rewritten as `shape` says, with `result`: the visited node is what the shape
    /// makes of it, and the nodes and the locals of the shape are added. Where the node is
    /// replaced, the last node added takes its place.
    pub open spec fn shaped(
        func: &LocalFunction,
        func_after: &LocalFunction,
        locals: Seq<LocalView>,
        locals_after: Seq<LocalView>,
        id: ExprId,
        shape: Shape,
        replaced: bool,
        result: Result<Option<ExprId>, Error>,
    ) -> bool {
        let last = (func.nodes().len() + shape.nodes.len() - 1) as nat;
        &&& result == Ok::<Option<ExprId>, Error>(
            if replaced {
                Some(at(func.tag(), last))
            } else {
                None
            },
        )
        &&& func_after.nodes() == (match shape.node {
            Some(node) => func.nodes().update(id.index as int, node),
            None => func.nodes(),
        }) + shape.nodes
        &&& locals_after == locals + shape.locals
    }

    /// Shows [`shaped`](Self::shaped) from its parts.
    pub proof fn lemma_shaped(
        func: &LocalFunction,
        func_after: &LocalFunction,
        locals: Seq<LocalView>,
        locals_after: Seq<LocalView>,
        id: ExprId,
        shape: Shape,
        out: ExprId,
    )
        requires
            shape.nodes.len() > 0,
            out.arena == func.tag(),
            out.index == func.nodes().len() + shape.nodes.len() - 1,
            func_after.nodes() =~= (match shape.node {
                Some(node) => func.nodes().update(id.index as int, node),
                None => func.nodes(),
            }) + shape.nodes,
            locals_after =~= locals + shape.locals,
        ensures
            Self::shaped(
                func,
                func_after,
                locals,
                locals_after,
                id,
                shape,
                true,
                Ok::<Option<ExprId>, Error>(Some(out)),
            ),
            Self::shaped(
                func,
                func_after,
                locals,
                locals_after,
                id,
                shape,
                false,
                Ok::<Option<ExprId>, Error>(None),
            ),
    {
    }

    /// Whether the first phase rewrites the node `node`.
    pub open spec fn rewrites(&self, node: ExprView) -> bool {
        match node {
            ExprView::Unop(u) => canonicalized_unop(u.op),
            ExprView::Load(l) => canonical_load(l.kind) is Some,
            ExprView::Store(s) => canonical_store(s.kind) is Some,
            ExprView::BrIf(b) => self.blocks@.contains_key(b.block.id.index)
                && self.blocks@[b.block.id.index] == ValType::I64,
            _ => false,
        }
    }

    /// Leaves the node at `id` as it is.
    pub fn keep(&mut self, func: &LocalFunction, locals: &ModuleLocals, id: ExprId) -> (result:
        Result<Option<ExprId>, Error>)
        requires
            old(self).ready(func, locals@, id),
            reduced(func.nodes()[id.index as int]),
        ensures
            final(self).left(old(self), func, func, locals@, locals@, id, result),
            result == Ok::<Option<ExprId>, Error>(None),
            final(self).changed == old(self).changed,
            final(self).rewritten == old(self).rewritten,
            final(self).blocks == old(self).blocks,
    {
        self.seal(func, locals, id, None);
        Ok(None)
    }

    /// Prepares the visit of the operands of the node at `id`: the result type of a block
    /// with a single result is recorded, so that a conditional branch inside the block can
    /// tell whether it carries a 64-bit integer to it.
    pub fn enter(&mut self, func: &LocalFunction, locals: &ModuleLocals, id: ExprId)
        requires
            old(self).inv(func, locals@),
            func.valid(id),
            id.index < old(self).orig@.len(),
            old(self).marks@[id.index as int] is Active,
            func.nodes()[id.index as int] == old(self).orig@[id.index as int],
        ensures
            final(self).inv(func, locals@),
            final(self).follows(func, locals@, -1, old(self).moment(func, locals@)),
            final(self).marks == old(self).marks,
            final(self).same_phase(old(self)),
            final(self).rewritten == old(self).rewritten,
            !old(self).changed && plain_form(func.nodes()[id.index as int])
                ==> !final(self).changed,
            match func.nodes()[id.index as int] {
                ExprView::Block(block) => if block.results.len() == 1 {
                    final(self).blocks@ == old(self).blocks@.insert(id.index, block.results[0])
                } else {
                    final(self).blocks@ == old(self).blocks@
                },
                _ => final(self).blocks@ == old(self).blocks@,
            },
    {
        let single = match func.get(id) {
            Expr::Block(block) => if block.results.len() == 1 {
                Some(block.results[0])
            } else {
                None
            },
            _ => None,
        };
        if let Some(ty) = single {
            if ty == ValType::I64 {
                self.changed = true;
            }
            self.blocks.insert(id.index, ty);
        }
    }

    /// Finishes a block whose operands have been visited: its result type is no longer
    /// recorded.
    pub fn visit_block(&mut self, func: &LocalFunction, locals: &ModuleLocals, id: ExprId) -> (result:
        Result<Option<ExprId>, Error>)
        requires
            old(self).ready(func, locals@, id),
            func.nodes()[id.index as int] is Block,
        ensures
            final(self).left(old(self), func, func, locals@, locals@, id, result),
            result == Ok::<Option<ExprId>, Error>(None),
            final(self).blocks@ == old(self).blocks@.remove(id.index),
    {
        self.blocks.remove(&id.index);
        self.seal(func, locals, id, None);
        Ok(None)
    }

    /// Rewrites a conditional branch to a block whose single result is a 64-bit integer.
    ///
    /// Dealing with `br_if` is pretty difficult so just change it to a block with an
    /// if/else. Note that we're careful to evaluate the argument first before the
    /// condition. We turn this...
    ///
    /// ```text
    ///  (br_if $block $value $condition)
    /// ```
    ///
    /// into...
    ///
    /// ```text
    ///  (block (result i64)
    ///      (local.set $tmp $value)
    ///      (if $condition
    ///          (br $block (local.get $tmp))
    ///          (local.get $tmp)))
    /// ```
    ///
    /// A conditional branch to such a block that does not carry exactly one value is
    /// refused.
    pub fn visit_br_if(
        &mut self,
        func: &mut LocalFunction,
        locals: &mut ModuleLocals,
        id: ExprId,
    ) -> (result: Result<Option<ExprId>, Error>)
        requires
            old(self).ready(old(func), old(locals)@, id),
            old(func).nodes()[id.index as int] is BrIf,
        ensures
            final(self).left(
                old(self),
                final(func),
                old(func),
                final(locals)@,
                old(locals)@,
                id,
                result,
            ),
            final(self).blocks == old(self).blocks,
            ({
                let br_if = old(func).nodes()[id.index as int]->BrIf_0;
                let target = br_if.block.id.index;
                let to_i64 = old(self).blocks@.contains_key(target) && old(self).blocks@[target]
                    == ValType::I64;
                &&& result is Err <==> to_i64 && br_if.args.len() != 1
                &&& result is Err ==> result == Err::<Option<ExprId>, Error>(
                    Error::Unimplemented(Unimplemented::BrIf),
                )
                &&& result is Ok ==> if to_i64 {
                    Self::shaped(
                        old(func),
                        final(func),
                        old(locals)@,
                        final(locals)@,
                        id,
                        canonical_br_if(
                            old(func).tag(),
                            old(func).nodes().len(),
                            old(locals)@.len(),
                            old(self).generate_names,
                            br_if.block,
                            br_if.condition,
                            br_if.args[0],
                        ),
                        true,
                        result,
                    )
                } else {
                    result == Ok::<Option<ExprId>, Error>(None) && final(func).nodes()
                        == old(func).nodes() && final(locals)@ == old(locals)@
                }
            }),
    {
        let ghost nodes = func.nodes();
        assert(node_ok(nodes, func.tag(), nodes[id.index as int]));
        let (target, condition, count, first) = match func.get(id) {
            Expr::BrIf(br_if) => (
                br_if.block,
                br_if.condition,
                br_if.args.len(),
                if br_if.args.len() == 1 {
                    Some(br_if.args[0])
                } else {
                    None
                },
            ),
            _ => (BlockId { id }, id, 0, None),
        };
        match self.blocks.get(&target.id.index) {
            Some(ty) => {
                if *ty != ValType::I64 {
                    return self.keep(func, locals, id);
                }
            },
            None => {
                return self.keep(func, locals, id);
            },
        }
        let value = match first {
            Some(v) => v,
            None => {
                return Err(Error::Unimplemented(Unimplemented::BrIf));
            },
        };
        assert(value == nodes[id.index as int].children()[0]);
        assert(condition == nodes[id.index as int].children()[1]);
        self.touch(func, locals);
        let local = self.local(func, locals, ValType::I64, "br_if_val");
        let set_local = self.emit(func, locals, Expr::LocalSet(LocalSet { local, value }));
        let get_local = self.emit(func, locals, Expr::LocalGet(LocalGet { local }));
        let br = self.emit(func, locals, Expr::Br(Br { block: target, args: exprs1(get_local) }));
        let if_true = self.emit(
            func,
            locals,
            Expr::Block(plain_block(types1(ValType::I64), exprs1(br))),
        );
        let get_local = self.emit(func, locals, Expr::LocalGet(LocalGet { local }));
        let if_false = self.emit(
            func,
            locals,
            Expr::Block(plain_block(types1(ValType::I64), exprs1(get_local))),
        );
        let if_else = self.emit(
            func,
            locals,
            Expr::IfElse(
                IfElse {
                    condition,
                    consequent: BlockId { id: if_true },
                    alternative: BlockId { id: if_false },
                },
            ),
        );
        let block = self.emit(
            func,
            locals,
            Expr::Block(plain_block(types1(ValType::I64), exprs2(set_local, if_else))),
        );
        self.seal(func, locals, id, Some(block));
        proof {
            Self::lemma_shaped(
                old(func),
                func,
                old(locals)@,
                locals@,
                id,
                canonical_br_if(
                    old(func).tag(),
                    old(func).nodes().len(),
                    old(locals)@.len(),
                    old(self).generate_names,
                    target,
                    condition,
                    value,
                ),
                block,
            );
        }
        Ok(Some(block))
    }

    /// Rewrites a unary operation.
    ///
    /// A reinterpretation between a 64-bit integer and a 64-bit float becomes a store and
    /// a load through address zero of the memory. Right now it's not clear if there's a
    /// better way to do this, but it should work for now! An extension from 8 or 16 bits to
    /// 64 becomes an extension to 32 bits of the wrapped operand, extended from 32 to 64
    /// bits, so the second phase only has to handle one case.
    #[verifier::rlimit(60)]
    pub fn visit_unop(
        &mut self,
        func: &mut LocalFunction,
        locals: &ModuleLocals,
        id: ExprId,
        node: Unop,
    ) -> (result: Result<Option<ExprId>, Error>)
        requires
            old(self).ready(old(func), locals@, id),
            old(func).nodes()[id.index as int] == ExprView::Unop(node),
        ensures
            final(self).left(old(self), final(func), old(func), locals@, locals@, id, result),
            final(self).blocks == old(self).blocks,
            if canonicalized_unop(node.op) {
                Self::shaped(
                    old(func),
                    final(func),
                    locals@,
                    locals@,
                    id,
                    canonical_unop(
                        old(func).tag(),
                        old(func).nodes().len(),
                        old(self).memory,
                        id,
                        node.op,
                        node.expr,
                    ),
                    true,
                    result,
                )
            } else {
                result == Ok::<Option<ExprId>, Error>(None) && final(func).nodes()
                    == old(func).nodes()
            },
    {
        let ghost nodes = func.nodes();
        assert(node_ok(nodes, func.tag(), nodes[id.index as int]));
        assert(node.expr == nodes[id.index as int].children()[0]);
        match node.op {
            UnaryOp::F64ReinterpretI64 => {
                self.touch(func, locals);
                let zero = self.emit(func, locals, Expr::Const(Const { value: Value::I32(0) }));
                let arg = MemArg::new(8);
                let store = self.emit(
                    func,
                    locals,
                    Expr::Store(
                        Store {
                            memory: self.memory,
                            kind: StoreKind::I64 { atomic: false },
                            arg,
                            address: zero,
                            value: node.expr,
                        },
                    ),
                );
                let zero = self.emit(func, locals, Expr::Const(Const { value: Value::I32(0) }));
                let load = self.emit(
                    func,
                    locals,
                    Expr::Load(
                        Load { memory: self.memory, kind: LoadKind::F64, arg, address: zero },
                    ),
                );
                let block = self.emit(
                    func,
                    locals,
                    Expr::Block(plain_block(types1(ValType::F64), exprs2(store, load))),
                );
                self.seal(func, locals, id, Some(block));
                proof {
                    Self::lemma_shaped(
                        old(func),
                        func,
                        locals@,
                        locals@,
                        id,
                        canonical_unop(
                            old(func).tag(),
                            old(func).nodes().len(),
                            old(self).memory,
                            id,
                            node.op,
                            node.expr,
                        ),
                        block,
                    );
                }
                Ok(Some(block))
            },
            UnaryOp::I64ReinterpretF64 => {
                self.touch(func, locals);
                let zero = self.emit(func, locals, Expr::Const(Const { value: Value::I32(0) }));
                let arg = MemArg::new(8);
                let store = self.emit(
                    func,
                    locals,
                    Expr::Store(
                        Store {
                            memory: self.memory,
                            kind: StoreKind::F64,
                            arg,
                            address: zero,
                            value: node.expr,
                        },
                    ),
                );
                let zero = self.emit(func, locals, Expr::Const(Const { value: Value::I32(0) }));
                let load = self.emit(
                    func,
                    locals,
                    Expr::Load(
                        Load {
                            memory: self.memory,
                            kind: LoadKind::I64 { atomic: false },
                            arg,
                            address: zero,
                        },
                    ),
                );
                let block = self.emit(
                    func,
                    locals,
                    Expr::Block(plain_block(types1(ValType::I64), exprs2(store, load))),
                );
                self.seal(func, locals, id, Some(block));
                proof {
                    Self::lemma_shaped(
                        old(func),
                        func,
                        locals@,
                        locals@,
                        id,
                        canonical_unop(
                            old(func).tag(),
                            old(func).nodes().len(),
                            old(self).memory,
                            id,
                            node.op,
                            node.expr,
                        ),
                        block,
                    );
                }
                Ok(Some(block))
            },
            UnaryOp::I64Extend8S | UnaryOp::I64Extend16S => {
                self.touch(func, locals);
                let op = match node.op {
                    UnaryOp::I64Extend8S => UnaryOp::I32Extend8S,
                    _ => UnaryOp::I32Extend16S,
                };
                let wrap = self.emit(
                    func,
                    locals,
                    Expr::Unop(Unop { op: UnaryOp::I32WrapI64, expr: node.expr }),
                );
                self.amend(func, locals, id, Expr::Unop(Unop { op, expr: wrap }));
                self.seal(func, locals, id, None);
                let extend = self.emit(
                    func,
                    locals,
                    Expr::Unop(Unop { op: UnaryOp::I64ExtendSI32, expr: id }),
                );
                self.seal(func, locals, id, Some(extend));
                proof {
                    Self::lemma_shaped(
                        old(func),
                        func,
                        locals@,
                        locals@,
                        id,
                        canonical_unop(
                            old(func).tag(),
                            old(func).nodes().len(),
                            old(self).memory,
                            id,
                            node.op,
                            node.expr,
                        ),
                        extend,
                    );
                }
                Ok(Some(extend))
            },
            _ => self.keep(func, locals, id),
        }
    }

    /// Canonicalize all loads of 64-bit values to either a full load or a load of a
    /// 32-bit value followed by an extend.
    pub fn visit_load(
        &mut self,
        func: &mut LocalFunction,
        locals: &ModuleLocals,
        id: ExprId,
        node: Load,
    ) -> (result: Result<Option<ExprId>, Error>)
        requires
            old(self).ready(old(func), locals@, id),
            old(func).nodes()[id.index as int] == ExprView::Load(node),
        ensures
            final(self).left(old(self), final(func), old(func), locals@, locals@, id, result),
            final(self).blocks == old(self).blocks,
            match canonical_load(node.kind) {
                Some((kind, extend)) => Self::shaped(
                    old(func),
                    final(func),
                    locals@,
                    locals@,
                    id,
                    (Shape {
                        node: Some(ExprView::Load(Load { kind, ..node })),
                        nodes: seq![unop(extend, id)],
                        locals: Seq::empty(),
                        low: None,
                    }),
                    true,
                    result,
                ),
                None => result == Ok::<Option<ExprId>, Error>(None) && final(func).nodes()
                    == old(func).nodes(),
            },
    {
        let ghost nodes = func.nodes();
        assert(node_ok(nodes, func.tag(), nodes[id.index as int]));
        assert(node.address == nodes[id.index as int].children()[0]);
        let (new_load_kind, extend) = match canonical_load_of(node.kind) {
            Some(pair) => pair,
            None => {
                return self.keep(func, locals, id);
            },
        };
        self.touch(func, locals);
        self.amend(func, locals, id, Expr::Load(Load { kind: new_load_kind, ..node }));
        self.seal(func, locals, id, None);
        let wide = self.emit(func, locals, Expr::Unop(Unop { op: extend, expr: id }));
        self.seal(func, locals, id, Some(wide));
        proof {
            Self::lemma_shaped(
                old(func),
                func,
                locals@,
                locals@,
                id,
                Shape {
                    node: Some(ExprView::Load(Load { kind: new_load_kind, ..node })),
                    nodes: seq![unop(extend, id)],
                    locals: Seq::empty(),
                    low: None,
                },
                wide,
            );
        }
        Ok(Some(wide))
    }

    /// Canonicalize all stores of 64-bit values to either a full 64-bits or a 32-bit store
    /// with a wrapped value.
    pub fn visit_store(
        &mut self,
        func: &mut LocalFunction,
        locals: &ModuleLocals,
        id: ExprId,
        node: Store,
    ) -> (result: Result<Option<ExprId>, Error>)
        requires
            old(self).ready(old(func), locals@, id),
            old(func).nodes()[id.index as int] == ExprView::Store(node),
        ensures
            final(self).left(old(self), final(func), old(func), locals@, locals@, id, result),
            final(self).blocks == old(self).blocks,
            match canonical_store(node.kind) {
                Some(kind) => Self::shaped(
                    old(func),
                    final(func),
                    locals@,
                    locals@,
                    id,
                    (Shape {
                        node: Some(
                            ExprView::Store(
                                Store {
                                    kind,
                                    value: at(old(func).tag(), old(func).nodes().len()),
                                    ..node
                                },
                            ),
                        ),
                        nodes: seq![unop(UnaryOp::I32WrapI64, node.value)],
                        locals: Seq::empty(),
                        low: None,
                    }),
                    false,
                    result,
                ),
                None => result == Ok::<Option<ExprId>, Error>(None) && final(func).nodes()
                    == old(func).nodes(),
            },
    {
        let ghost nodes = func.nodes();
        assert(node_ok(nodes, func.tag(), nodes[id.index as int]));
        assert(node.address == nodes[id.index as int].children()[0]);
        assert(node.value == nodes[id.index as int].children()[1]);
        let new_store_kind = match canonical_store_of(node.kind) {
            Some(kind) => kind,
            None => {
                return self.keep(func, locals, id);
            },
        };
        self.touch(func, locals);
        let low_32 = self.emit(
            func,
            locals,
            Expr::Unop(Unop { op: UnaryOp::I32WrapI64, expr: node.value }),
        );
        self.amend(
            func,
            locals,
            id,
            Expr::Store(Store { kind: new_store_kind, value: low_32, ..node }),
        );
        self.seal(func, locals, id, None);
        proof {
            Self::lemma_shaped(
                old(func),
                func,
                locals@,
                locals@,
                id,
                Shape {
                    node: Some(
                        ExprView::Store(
                            Store {
                                kind: new_store_kind,
                                value: at(old(func).tag(), old(func).nodes().len()),
                                ..node
                            },
                        ),
                    ),
                    nodes: seq![unop(UnaryOp::I32WrapI64, node.value)],
                    locals: Seq::empty(),
                    low: None,
                },
                low_32,
            );
        }
        Ok(None)
    }

    /// Whether the first phase refuses the node `node`, whose operands have been visited: a
    /// conditional branch to a block of a single 64-bit result that does not carry exactly
    /// one value.
    pub open spec fn refuses(&self, node: ExprView) -> bool {
        node matches ExprView::BrIf(br_if) && self.blocks@.contains_key(br_if.block.id.index)
            && self.blocks@[br_if.block.id.index] == ValType::I64 && br_if.args.len() != 1
    }

    /// Rewrites the node at `id`, whose operands have been visited, by its kind.
    pub fn leave(
        &mut self,
        func: &mut LocalFunction,
        locals: &mut ModuleLocals,
        id: ExprId,
    ) -> (result: Result<Option<ExprId>, Error>)
        requires
            old(self).ready(old(func), old(locals)@, id),
        ensures
            final(self).left(
                old(self),
                final(func),
                old(func),
                final(locals)@,
                old(locals)@,
                id,
                result,
            ),
            if old(self).refuses(old(func).nodes()[id.index as int]) {
                result == Err::<Option<ExprId>, Error>(Error::Unimplemented(Unimplemented::BrIf))
            } else {
                result is Ok
            },
    {
        match func.get(id) {
            Expr::Unop(node) => {
                let node = *node;
                self.visit_unop(func, locals, id, node)
            },
            Expr::Load(node) => {
                let node = *node;
                self.visit_load(func, locals, id, node)
            },
            Expr::Store(node) => {
                let node = *node;
                self.visit_store(func, locals, id, node)
            },
            Expr::BrIf(_) => self.visit_br_if(func, locals, id),
            Expr::Block(_) => self.visit_block(func, locals, id),
            _ => self.keep(func, locals, id),
        }
    }

    /// What a visit of the node at `id` promises where it succeeds with `found`: the
    /// invariant holds again; no node is less far than it was; and `found`, if any, is the
    /// node that takes the place of the node at `id`, which is part of the rewritten body
    /// itself where there is none.
    pub open spec fn visited(
        &self,
        before: &LowerI64,
        func: &LocalFunction,
        func_before: &LocalFunction,
        locals: Seq<LocalView>,
        locals_before: Seq<LocalView>,
        id: ExprId,
        found: Option<ExprId>,
    ) -> bool {
        &&& self.inv(func, locals)
        &&& self.follows(func, locals, -1, before.moment(func_before, locals_before))
        &&& func.same_but_nodes(func_before)
        &&& self.same_phase(before)
        &&& unseen(self.marks@) <= unseen(before.marks@)
        &&& !(id.index < before.orig@.len() && before.marks@[id.index as int] is Active)
        &&& forall|i: int|
            0 <= i < self.marks@.len() && #[trigger] self.marks@[i] is Active
                ==> before.marks@[i] is Active
        &&& match found {
            None => self.finished(func.nodes(), id.index as int),
            Some(other) => func.valid(other) && other.index >= self.orig@.len() && !(
            func.nodes()[id.index as int] is Block),
        }
    }

    /// Visits the node at `id`: its operands first, in the order in which they are
    /// evaluated, each replaced in the node by the node that takes its place, if any; then
    /// the node itself. Returns the node that takes the place of the node at `id`, if any.
    ///
    /// A node that was visited before is not visited again: what took its place then takes
    /// its place now. A node that is an operand of itself is refused, and so is a
    /// conditional branch that [`leave`](Self::leave) refuses; the visit fails for no other
    /// reason.
    pub fn visit_expr_id(
        &mut self,
        func: &mut LocalFunction,
        locals: &mut ModuleLocals,
        id: ExprId,
    ) -> (result: Result<Option<ExprId>, Error>)
        requires
            old(self).inv(old(func), old(locals)@),
            old(func).valid(id),
            ranked(old(self).orig@, old(self).rank@) ==> above(
                old(self).marks@,
                old(self).rank@,
                id,
            ),
        ensures
            !old(self).rewritten && body_settled(old(self).orig@, id) && ranked(
                old(self).orig@,
                old(self).rank@,
            ) ==> result == Ok::<Option<ExprId>, Error>(None) && !final(self).rewritten,
            !old(self).changed && body_plain(old(func).nodes(), id) && ranked(
                old(func).nodes(),
                old(self).rank@,
            ) ==> result == Ok::<Option<ExprId>, Error>(None) && !final(self).changed,
            result matches Ok(found) ==> final(self).visited(
                old(self),
                final(func),
                old(func),
                final(locals)@,
                old(locals)@,
                id,
                found,
            ),
            !old(self).changed && body_plain(old(func).nodes(), id) ==> (result == Ok::<
                Option<ExprId>,
                Error,
            >(None) && !final(self).changed) || result == Err::<Option<ExprId>, Error>(
                Error::Unimplemented(Unimplemented::Cycle),
            ),
            result matches Err(e) ==> e == Error::Unimplemented(Unimplemented::Cycle) || e
                == Error::Unimplemented(Unimplemented::BrIf),
            ranked(old(self).orig@, old(self).rank@) ==> result != Err::<Option<ExprId>, Error>(
                Error::Unimplemented(Unimplemented::Cycle),
            ),
            body_accepted(old(self).orig@, id) ==> result != Err::<Option<ExprId>, Error>(
                Error::Unimplemented(Unimplemented::BrIf),
            ),
        decreases unseen(old(self).marks@),
    {
        if id.index >= self.marks.len() {
            return Ok(None);
        }
        match self.marks[id.index] {
            Mark::Done(found) => {
                proof {
                    if !self.changed {
                        assert(found is None);
                    }
                }
                return Ok(found);
            },
            Mark::Active => {
                return Err(Error::Unimplemented(Unimplemented::Cycle));
            },
            Mark::Unseen => {},
        }
        let ghost calm = !self.changed && body_plain(func.nodes(), id);
        let ghost sorted = ranked(self.orig@, self.rank@);
        let ghost quiet = !self.rewritten && body_settled(self.orig@, id) && sorted;
        let ghost accepted = body_accepted(self.orig@, id);
        proof {
            lemma_agrees_itself(self.orig@[id.index as int]);
            if accepted {
                lemma_every_reached_root(
                    self.orig@,
                    id,
                    |e: ExprView| accepted_form(self.orig@, e),
                );
            }
            if calm {
                lemma_every_reached_root(func.nodes(), id, |e: ExprView| plain_form(e));
            }
            if quiet {
                lemma_every_reached_root(
                    self.orig@,
                    id,
                    |e: ExprView| settled_form(self.orig@, e),
                );
            }
            assert(func.nodes()[id.index as int] == self.orig@[id.index as int]);
        }
        self.begin(func, locals, id);
        self.enter(func, locals, id);
        assert(node_ok(func.nodes(), func.tag(), func.nodes()[id.index as int]));
        let count = func.get(id).child_count();
        let mut k: usize = 0;
        while k < count
            invariant
                k <= count,
                self.inv(func, locals@),
                func.valid(id),
                id.index < self.orig@.len(),
                self.marks@[id.index as int] is Active,
                count == func.nodes()[id.index as int].children().len(),
                self.follows(
                    func,
                    locals@,
                    id.index as int,
                    old(self).moment(old(func), old(locals)@),
                ),
                unseen(self.marks@) < unseen(old(self).marks@),
                self.same_phase(old(self)),
                func.same_but_nodes(old(func)),
                old(self).marks@[id.index as int] is Unseen,
                calm ==> !self.changed && body_plain(func.nodes(), id),
                calm == (!old(self).changed && body_plain(old(func).nodes(), id)),
                sorted == ranked(self.orig@, self.rank@),
                sorted ==> above(old(self).marks@, old(self).rank@, id),
                !self.changed ==> !old(self).changed && old(func).nodes() == self.orig@,
                count == self.orig@[id.index as int].children().len(),
                forall|j: int|
                    k <= j < count ==> func.nodes()[id.index as int].children()[j]
                        == #[trigger] self.orig@[id.index as int].children()[j],
                quiet == (!old(self).rewritten && body_settled(old(self).orig@, id) && ranked(
                    old(self).orig@,
                    old(self).rank@,
                )),
                quiet ==> !self.rewritten && settled_form(
                    self.orig@,
                    self.orig@[id.index as int],
                ),
                forall|i: int|
                    0 <= i < self.marks@.len() ==> (#[trigger] self.marks@[i] is Active
                        <==> old(self).marks@[i] is Active || i == id.index),
                forall|j: int|
                    0 <= j < k ==> self.finished(
                        func.nodes(),
                        (#[trigger] func.nodes()[id.index as int].children()[j]).index as int,
                    ),
                agrees(func.nodes()[id.index as int], self.orig@[id.index as int]),
                accepted == body_accepted(self.orig@, id),
                accepted ==> accepted_form(self.orig@, self.orig@[id.index as int]),
            decreases count - k,
        {
            let child = func.get(id).child(k);
            proof {
                assert(node_ok(func.nodes(), func.tag(), func.nodes()[id.index as int]));
                if calm {
                    lemma_every_reached_child(
                        func.nodes(),
                        id,
                        k as int,
                        |e: ExprView| plain_form(e),
                    );
                }
                assert(child == self.orig@[id.index as int].children()[k as int]);
                if quiet {
                    lemma_every_reached_child(
                        self.orig@,
                        id,
                        k as int,
                        |e: ExprView| settled_form(self.orig@, e),
                    );
                }
                if accepted {
                    lemma_every_reached_child(
                        self.orig@,
                        id,
                        k as int,
                        |e: ExprView| accepted_form(self.orig@, e),
                    );
                }
                if sorted {
                    assert(child.index < self.orig@.len() ==> self.rank@[child.index as int]
                        < self.rank@[id.index as int]);
                    assert forall|i: int|
                        0 <= i < self.marks@.len() && i < self.rank@.len()
                            && #[trigger] self.marks@[i] is Active && child.index
                            < self.rank@.len() implies self.rank@[i]
                        > self.rank@[child.index as int] by {
                        if i != id.index {
                            assert(old(self).marks@[i] is Active);
                        }
                    }
                }
            }
            let ghost was = func.nodes()[id.index as int];
            let ghost mid = self.moment(func, locals@);
            let found = self.visit_expr_id(func, locals, child)?;
            assert(func.nodes()[id.index as int] == was);
            proof {
                assert forall|j: int| 0 <= j < k implies self.finished(
                    func.nodes(),
                    (#[trigger] was.children()[j]).index as int,
                ) by {
                    assert(valid_id(mid.nodes, func.tag(), was.children()[j]));
                    assert(finished_at(self.orig@.len(), mid, was.children()[j].index as int));
                }
            }
            if let Some(other) = found {
                assert(self.changed);
                let ghost mid = self.moment(func, locals@);
                self.patch(func, locals, id, k, other);
                proof {
                    let now = func.nodes()[id.index as int];
                    lemma_agrees_patched(was, self.orig@[id.index as int], k as int, other);
                    assert forall|j: int| 0 <= j < k + 1 implies self.finished(
                        func.nodes(),
                        (#[trigger] now.children()[j]).index as int,
                    ) by {
                        if j < k {
                            assert(now.children()[j] == was.children()[j]);
                            assert(valid_id(mid.nodes, func.tag(), was.children()[j]));
                            assert(finished_at(
                                self.orig@.len(),
                                mid,
                                was.children()[j].index as int,
                            ));
                        }
                    }
                }
            }
            k += 1;
        }
        let ghost last = self.marks@;
        proof {
            if accepted {
                lemma_form_children(func.nodes()[id.index as int], self.orig@[id.index as int]);
                assert(!self.refuses(func.nodes()[id.index as int]));
            }
        }
        let result = self.leave(func, locals, id);
        proof {
            if let Ok(found) = result {
                lemma_unseen_update(last, id.index as int, Mark::Done(found));
                assert(self.marks@[id.index as int] == Mark::Done(found));
            }
        }
        result
    }

    /// The rewritten body is of forms that the phase leaves in a body: every node that the
    /// body reaches from the entry, once the entry is part of the rewritten body, is.
    pub proof fn lemma_reduced(&self, func: &LocalFunction, locals: Seq<LocalView>)
        requires
            self.inv(func, locals),
            self.finished(func.nodes(), func.entry().id.index as int),
        ensures
            body_reduced(func.nodes(), func.entry().id),
    {
        let nodes = func.nodes();
        let s = Set::new(|i: int| 0 <= i < nodes.len() && self.finished(nodes, i));
        assert forall|i: int, k: int|
            0 <= i < nodes.len() && s.contains(i) && 0 <= k < nodes[i].children().len() implies s.contains(
            (#[trigger] nodes[i].children()[k]).index as int,
        ) by {
            assert(node_ok(nodes, func.tag(), nodes[i]));
            assert(valid_id(nodes, func.tag(), nodes[i].children()[k]));
            assert(self.finished(nodes, nodes[i].children()[k].index as int));
        }
        lemma_every_reached_from_closed(nodes, func.entry().id, s, |e: ExprView| reduced(e));
    }

    /// A vector of `count` marks, none of which says that a node was reached.
    pub fn fresh_marks(count: usize) -> (marks: Vec<Mark>)
        ensures
            marks@.len() == count,
            forall|i: int| 0 <= i < count ==> marks@[i] is Unseen,
    {
        let mut marks: Vec<Mark> = Vec::new();
        let mut i: usize = 0;
        while i < count
            invariant
                i <= count,
                marks@.len() == i,
                forall|j: int| 0 <= j < i ==> marks@[j] is Unseen,
            decreases count - i,
        {
            marks.push(Mark::Unseen);
            i += 1;
        }
        marks
    }

    /// Runs the first phase on one function: removes a various number of 64-bit
    /// operations by lowering them to "simpler" alternatives.
    ///
    /// On success the body is well-formed again and no node that it reaches from its entry
    /// is a reinterpretation between a 64-bit integer and a float, an extension from 8 or 16
    /// bits to 64, or a narrow load or store of a 64-bit integer; its old nodes keep their
    /// places, and the table of locals has its old locals in place. A body that reaches
    /// plain forms only is left as it is, with the locals.
    ///
    /// The phase fails for two reasons only: an expression that is part of itself, and a
    /// conditional branch to a block of a single 64-bit result that does not carry exactly
    /// one value. It reports neither on a body that has no such expression and reaches no
    /// such branch.
    pub fn run(
        memory: MemoryId,
        generate_names: bool,
        func: &mut LocalFunction,
        locals: &mut ModuleLocals,
    ) -> (result: Result<(), Error>)
        requires
            old(func).wf(),
            locals_in_range(old(func).nodes(), old(locals)@.len()),
        ensures
            result is Ok ==> {
                &&& final(func).wf()
                &&& locals_in_range(final(func).nodes(), final(locals)@.len())
                &&& final(func).same_but_nodes(old(func))
                &&& old(func).nodes().len() <= final(func).nodes().len()
                &&& old(locals)@.len() <= final(locals)@.len()
                &&& forall|i: int|
                    0 <= i < old(locals)@.len() ==> #[trigger] final(locals)@[i] == old(locals)@[i]
                &&& body_reduced(final(func).nodes(), final(func).entry().id)
            },
            body_plain(old(func).nodes(), old(func).entry().id) ==> (result is Ok
                && final(func).nodes() == old(func).nodes() && final(locals)@ == old(locals)@)
                || result == Err::<(), Error>(Error::Unimplemented(Unimplemented::Cycle)),
            result matches Err(e) ==> e == Error::Unimplemented(Unimplemented::Cycle) || e
                == Error::Unimplemented(Unimplemented::BrIf),
            acyclic(old(func).nodes()) ==> result != Err::<(), Error>(
                Error::Unimplemented(Unimplemented::Cycle),
            ),
            body_accepted(old(func).nodes(), old(func).entry().id) ==> result != Err::<(), Error>(
                Error::Unimplemented(Unimplemented::BrIf),
            ),
            body_plain(old(func).nodes(), old(func).entry().id) && acyclic(old(func).nodes())
                ==> result is Ok,
            body_settled(old(func).nodes(), old(func).entry().id) && acyclic(old(func).nodes())
                ==> result is Ok && final(func).nodes() == old(func).nodes() && final(locals)@
                == old(locals)@,
    {
        let mut phase = LowerI64 {
            memory,
            marks: Self::fresh_marks(func.len()),
            changed: false,
            rewritten: false,
            blocks: HashMap::new(),
            generate_names,
            orig: Ghost(func.nodes()),
            locals0: Ghost(locals@),
            rank: Ghost(ranking(func.nodes())),
        };
        let entry = func.entry_block();
        match phase.visit_expr_id(func, locals, entry.id) {
            Ok(_) => {
                proof {
                    phase.lemma_reduced(func, locals@);
                }
                Ok(())
            },
            Err(e) => Err(e),
        }
    }
}

} // verus!
