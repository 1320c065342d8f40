//! The second phase: every remaining producer and consumer of a 64-bit integer is replaced
//! by 32-bit operations. A rewritten producer leaves the high 32 bits on the stack and the
//! low 32 bits in a local of its own.

use vstd::prelude::*;
use vstd::std_specs::hash::*;
use std::collections::HashMap;
use crate::error::{Error, Unimplemented};
use crate::ir::make::{exprs2, exprs3, plain, plain_block, types0, types1};
use crate::ir::node::{
    Binop, Block, BlockId, BlockKind, BlockView, Const, Drop, Expr, ExprId, ExprView, FunctionId,
    GlobalGet, GlobalId, GlobalSet, IfElse, Load, LocalGet, LocalId, LocalSet, LocalTee, MemoryId,
    Select, Store, Unop,
};
use crate::ir::ops::{BinaryOp, LoadKind, StoreKind, UnaryOp, Value};
use crate::ir::reach::{lemma_every_reached_from_closed, reachable};
use crate::module::functions::local_function::{
    accessed_local, is_block_at, LocalFunction, locals_in_range, node_ok, nodes_ok, valid_id,
};
use crate::module::globals::ModuleGlobals;
use crate::module::locals::{LocalView, ModuleLocals};
use crate::module::types::ModuleTypes;
use crate::passes::remove_i64::analysis::{Analysis, high_bits_of, low_bits_of, Replace};
use crate::passes::remove_i64::lower::LowerI64;
use crate::passes::remove_i64::names::{half_name, half_named, numbered, numbered_name};
use crate::passes::remove_i64::shapes::{
    arm_joined, at, binop, bitop_nodes, block_finished, br_shape, const_nodes, count_zeros_nodes,
    exit_nodes, global_get, global_set, left_through, load_shape, local_at, local_get, local_set,
    read_nodes, Shape, sign_extend_nodes, store_shape, tee_nodes, temp, unop_shape, write_nodes,
};
use crate::passes::remove_i64::support::{
    agrees, blocks_grow, body_supported, climbing, key_of, lemma_agrees_itself,
    lemma_agrees_patched, lemma_body_supported_child, lemma_climb, lemma_climb_entry,
    lemma_form_children, lemma_supported_accepted, lemma_target_entered, lemma_typed_entered,
    lemma_typed_left, narrow_operands, operands_recorded, supported, target_entered, typed,
    typed_at, wide,
};
use crate::passes::remove_i64::walk::{
    above, acyclic, body_lowered, callee_mentions_i64, is_i32_local, is_i64_global, is_i64_local,
    lemma_body_lowered_child, lemma_body_lowered_root, lemma_unseen_update, lowered, Mark, ranked,
    ranking, Scope, type_mentions_i64, type_returns_i64, unseen,
};
use crate::ty::{has_i64, mentions_i64, TypeId, ValType};

verus! {

broadcast use vstd::std_specs::hash::group_hash_axioms;

/// What the second phase reads and does not change: the record of the analysis and the
/// tables of types and globals.
pub struct Env<'a> {
    pub analysis: &'a Analysis,
    pub types: &'a ModuleTypes,
    pub globals: &'a ModuleGlobals,
    /// The global in which a function that returned a 64-bit value leaves the low bits of
    /// its result, where the module has such a function.
    pub low_result: Option<GlobalId>,
}

impl<'a> Env<'a> {
    /// The tables against which bodies are read, with the given locals.
    pub open spec fn scope(&self, locals: Seq<LocalView>) -> Scope {
        Scope {
            locals,
            globals: self.globals@,
            types: self.types@,
            callees: self.analysis.old_function_types@,
        }
    }

    /// Whether the function `f` returned one 64-bit value before the analysis.
    pub open spec fn returns_i64(&self, f: FunctionId) -> bool {
        self.analysis.old_function_types@.contains_key(f.index) && type_returns_i64(
            self.types@,
            self.analysis.old_function_types@[f.index],
        )
    }

    /// Decides [`returns_i64`](Self::returns_i64).
    pub fn result_is_i64(&self, f: FunctionId) -> (yes: bool)
        requires
            self.wf(),
        ensures
            yes == self.returns_i64(f),
    {
        match self.analysis.old_function_types.get(&f.index) {
            Some(ty) => {
                let results = self.types.get(*ty).results();
                let yes = results.len() == 1 && results[0] == ValType::I64;
                assert(yes == (results@ =~= seq![ValType::I64]));
                yes
            },
            None => false,
        }
    }

    /// Whether the analysis has split every 64-bit global into two globals that are not
    /// 64-bit globals, has recorded functions with types of the type table, and has set a
    /// 32-bit global aside for the low bits of results where a function returned a 64-bit
    /// value.
    pub open spec fn wf(&self) -> bool {
        &&& self.low_result matches Some(g) ==> g.index < self.globals@.len()
            && self.globals@[g.index as int].ty == ValType::I32
        &&& forall|f: usize| #[trigger]
            self.analysis.old_function_types@.contains_key(f) && type_returns_i64(
                self.types@,
                self.analysis.old_function_types@[f],
            ) ==> self.low_result is Some
        &&& forall|g: usize|
            is_i64_global(self.globals@, GlobalId { index: g })
                ==> #[trigger] self.analysis.globals@.contains_key(g)
        &&& forall|g: usize| #[trigger]
            self.analysis.globals@.contains_key(g) ==> !is_i64_global(
                self.globals@,
                self.analysis.globals@[g].low,
            ) && !is_i64_global(self.globals@, self.analysis.globals@[g].high)
        &&& forall|g: usize| #[trigger]
            self.analysis.globals@.contains_key(g) ==> is_i64_global(
                self.globals@,
                GlobalId { index: g },
            )
        &&& forall|f: usize| #[trigger]
            self.analysis.old_function_types@.contains_key(f)
                ==> self.analysis.old_function_types@[f].index < self.types@.len()
    }
}

/// The state of the second phase on one function.
pub struct RemoveI64 {
    /// The function that is being rewritten.
    pub func_id: FunctionId,
    /// How far the traversal has come with each node that the arena held at the start.
    pub marks: Vec<Mark>,
    /// Whether anything has been rewritten.
    pub changed: bool,
    /// The local that holds the low 32 bits of each rewritten 64-bit producer, by the
    /// position of the producer.
    pub low_bits: HashMap<usize, LocalId>,
    /// The two locals that stand for each 64-bit local met so far, by its position.
    pub local_halves: HashMap<usize, Replace<LocalId>>,
    /// A memory of the module.
    pub memory: MemoryId,
    /// Whether the locals that the phase creates receive names.
    pub generate_names: bool,
    /// The nodes that the arena held at the start.
    pub orig: Ghost<Seq<ExprView>>,
    /// The locals that the module had at the start.
    pub locals0: Ghost<Seq<LocalView>>,
    /// A number for each node that the arena held at the start: where the arena was
    /// acyclic, every node has a greater number than each of its operands.
    pub rank: Ghost<Seq<nat>>,
}

/// What one moment of the second phase looks like to the next.
pub struct Snap {
    pub marks: Seq<Mark>,
    pub nodes: Seq<ExprView>,
    pub locals: Seq<LocalView>,
    pub changed: bool,
}

/// Whether the node at position `i` is part of the rewritten body at the moment `at`: it was
/// created by the phase, which started on `start` nodes, or the phase is done with it and it
/// is lowered.
pub open spec fn settled_at(env: &Env, start: nat, at: Snap, i: int) -> bool {
    i >= start || (0 <= i && at.marks[i] is Done && lowered(env.scope(at.locals), at.nodes[i]))
}

/// Whether the moment `b` can follow the moment `a` while the node at position `cur` is
/// being rewritten: nodes and locals are only added, every other node that is being visited
/// is untouched, what the phase was done with it is still done with, and what was part of
/// the rewritten body still is.
pub open spec fn advances(env: &Env, start: nat, cur: int, a: Snap, b: Snap) -> bool {
    &&& a.nodes.len() <= b.nodes.len()
    &&& a.locals.len() <= b.locals.len()
    &&& forall|i: int| 0 <= i < a.locals.len() ==> #[trigger] a.locals[i] == b.locals[i]
    &&& a.changed ==> b.changed
    &&& a.marks.len() == b.marks.len()
    &&& forall|i: int|
        0 <= i < start && i != cur && #[trigger] a.marks[i] is Active ==> b.marks[i] is Active
            && b.nodes[i] == a.nodes[i]
    &&& forall|i: int|
        0 <= i < start && i != cur && #[trigger] a.marks[i] is Done ==> b.marks[i] == a.marks[i]
    &&& forall|i: int|
        0 <= i < a.nodes.len() && #[trigger] settled_at(env, start, a, i) ==> settled_at(
            env,
            start,
            b,
            i,
        )
}

impl RemoveI64 {
    /// Whether the node at position `i` is part of the rewritten body: it was created by
    /// this phase, or the phase is done with it and it is lowered.
    pub open spec fn settled(&self, scope: Scope, nodes: Seq<ExprView>, i: int) -> bool {
        i >= self.orig@.len() || (0 <= i && self.marks@[i] is Done && lowered(scope, nodes[i]))
    }

    /// This moment of the phase.
    pub open spec fn snap(&self, func: &LocalFunction, locals: Seq<LocalView>) -> Snap {
        Snap { marks: self.marks@, nodes: func.nodes(), locals, changed: self.changed }
    }

    /// Whether the phase, from the state `before`, has come to this state while the node at
    /// `cur` was being rewritten.
    pub open spec fn follows(
        &self,
        env: &Env,
        func: &LocalFunction,
        locals: Seq<LocalView>,
        cur: int,
        before: Snap,
    ) -> bool {
        advances(env, self.orig@.len(), cur, before, self.snap(func, locals))
    }

    /// What the traversal keeps of the arena it started on: the nodes it has not reached
    /// are as they were, a block stays a block, a replacement is a node created later, and
    /// as long as nothing was rewritten nothing has changed.
    pub open spec fn frame(&self, func: &LocalFunction, locals: Seq<LocalView>) -> bool {
        let nodes = func.nodes();
        &&& self.marks@.len() == self.orig@.len()
        &&& self.orig@.len() <= nodes.len()
        &&& forall|i: int|
            0 <= i < self.orig@.len() && self.marks@[i] is Unseen ==> #[trigger] nodes[i]
                == self.orig@[i]
        &&& forall|i: int|
            0 <= i < self.orig@.len() ==> (#[trigger] nodes[i] is Block <==> self.orig@[i] is Block)
        &&& forall|i: int|
            0 <= i < self.orig@.len() ==> (#[trigger] self.marks@[i] matches Mark::Done(Some(r))
                ==> valid_id(nodes, func.tag(), r) && r.index >= self.orig@.len()
                && !(nodes[i] is Block))
        &&& !self.changed ==> {
            &&& nodes == self.orig@
            &&& locals == self.locals0@
            &&& self.low_bits@ == Map::<usize, LocalId>::empty()
            &&& self.local_halves@ == Map::<usize, Replace<LocalId>>::empty()
        }
    }

    /// Whether the body is well-formed.
    pub open spec fn structure(&self, func: &LocalFunction, locals: Seq<LocalView>) -> bool {
        &&& nodes_ok(func.nodes(), func.tag())
        &&& is_block_at(func.nodes(), func.tag(), func.entry().id)
        &&& locals_in_range(func.nodes(), locals.len())
    }

    /// Whether the rewritten part of the body is lowered and refers to itself only.
    pub open spec fn lowering(&self, scope: Scope, func: &LocalFunction) -> bool {
        let nodes = func.nodes();
        &&& forall|i: int| self.orig@.len() <= i < nodes.len() ==> lowered(scope, #[trigger] nodes[i])
        &&& forall|i: int|
            0 <= i < self.orig@.len() && self.marks@[i] == Mark::Done(None) ==> lowered(
                scope,
                #[trigger] nodes[i],
            )
        &&& forall|i: int, k: int|
            0 <= i < nodes.len() && self.settled(scope, nodes, i) && 0 <= k
                < nodes[i].children().len() ==> self.settled(
                scope,
                nodes,
                (#[trigger] nodes[i].children()[k]).index as int,
            )
    }

    /// Whether every local that stands for half of a 64-bit value is a 32-bit local.
    pub open spec fn halves(&self, env: &Env, locals: Seq<LocalView>) -> bool {
        &&& forall|k: usize| #[trigger]
            self.low_bits@.contains_key(k) ==> is_i32_local(locals, self.low_bits@[k])
        &&& forall|k: usize| #[trigger]
            self.local_halves@.contains_key(k) ==> is_i32_local(locals, self.local_halves@[k].low)
                && is_i32_local(locals, self.local_halves@[k].high)
        &&& forall|k: usize| #[trigger]
            env.analysis.arguments@.contains_key(k) ==> is_i32_local(
                locals,
                env.analysis.arguments@[k].low,
            ) && is_i32_local(locals, env.analysis.arguments@[k].high)
    }

    /// The invariant of the phase.
    pub open spec fn inv(&self, env: &Env, func: &LocalFunction, locals: Seq<LocalView>) -> bool {
        &&& env.wf()
        &&& self.frame(func, locals)
        &&& self.structure(func, locals)
        &&& self.lowering(env.scope(locals), func)
        &&& self.halves(env, locals)
    }

    /// Whether `other` is this state but for its marks.
    pub open spec fn same_but_marks(&self, other: &RemoveI64) -> bool {
        &&& self.func_id == other.func_id
        &&& self.changed == other.changed
        &&& self.low_bits == other.low_bits
        &&& self.local_halves == other.local_halves
        &&& self.memory == other.memory
        &&& self.generate_names == other.generate_names
        &&& self.orig == other.orig
        &&& self.locals0 == other.locals0
        &&& self.rank == other.rank
    }

    /// Whether `node` can join the rewritten body: it is well-formed and lowered, and
    /// its operands are part of the rewritten body.
    pub open spec fn admits(
        &self,
        env: &Env,
        func: &LocalFunction,
        locals: Seq<LocalView>,
        node: ExprView,
    ) -> bool {
        &&& node_ok(func.nodes(), func.tag(), node)
        &&& lowered(env.scope(locals), node)
        &&& accessed_local(node) matches Some(l) ==> l.index < locals.len()
        &&& forall|k: int|
            0 <= k < node.children().len() ==> self.settled(
                env.scope(locals),
                func.nodes(),
                (#[trigger] node.children()[k]).index as int,
            )
    }

    /// Adds a node to the rewritten body.
    pub fn emit(
        &self,
        env: &Env,
        func: &mut LocalFunction,
        locals: &ModuleLocals,
        node: Expr,
    ) -> (id: ExprId)
        requires
            self.inv(env, old(func), locals@),
            self.changed,
            self.admits(env, old(func), locals@, node@),
        ensures
            self.inv(env, final(func), locals@),
            final(func).appended(old(func), node@, id),
            self.follows(env, final(func), locals@, -1, self.snap(old(func), locals@)),
    {
        let id = func.alloc_expr(node);
        proof {
            let scope = env.scope(locals@);
            let before = old(func).nodes();
            let after = func.nodes();
            assert forall|i: int| 0 <= i < after.len() implies node_ok(
                after,
                func.tag(),
                #[trigger] after[i],
            ) by {
                if i < before.len() {
                    assert(node_ok(before, func.tag(), before[i]));
                }
            }
            assert forall|i: int, k: int|
                0 <= i < after.len() && self.settled(scope, after, i) && 0 <= k
                    < after[i].children().len() implies self.settled(
                scope,
                after,
                (#[trigger] after[i].children()[k]).index as int,
            ) by {
                if i < before.len() {
                    assert(self.settled(scope, before, i));
                    assert(self.settled(scope, before, before[i].children()[k].index as int));
                } else {
                    assert(self.settled(scope, before, node@.children()[k].index as int));
                }
            }
        }
        id
    }

    /// The invariant survives new locals.
    pub proof fn lemma_more_locals(
        &self,
        env: &Env,
        func: &LocalFunction,
        before: Seq<LocalView>,
        after: Seq<LocalView>,
    )
        requires
            self.inv(env, func, before),
            self.changed,
            before.len() <= after.len(),
            forall|i: int| 0 <= i < before.len() ==> after[i] == before[i],
        ensures
            self.inv(env, func, after),
            forall|i: int|
                0 <= i < func.nodes().len() ==> (self.settled(env.scope(before), func.nodes(), i)
                    <==> self.settled(env.scope(after), func.nodes(), i)),
    {
        let nodes = func.nodes();
        assert forall|i: int| 0 <= i < nodes.len() implies (lowered(
            env.scope(before),
            #[trigger] nodes[i],
        ) <==> lowered(env.scope(after), nodes[i])) by {
            assert(accessed_local(nodes[i]) matches Some(l) ==> l.index < before.len());
        }
        assert forall|i: int, k: int|
            0 <= i < nodes.len() && self.settled(env.scope(after), nodes, i) && 0 <= k
                < nodes[i].children().len() implies self.settled(
            env.scope(after),
            nodes,
            (#[trigger] nodes[i].children()[k]).index as int,
        ) by {
            assert(self.settled(env.scope(before), nodes, i));
            let c = nodes[i].children()[k];
            assert(node_ok(nodes, func.tag(), nodes[i]));
            assert(valid_id(nodes, func.tag(), c));
            assert(self.settled(env.scope(before), nodes, c.index as int));
        }
    }

    /// Creates a 32-bit local, named after `name` and its own position where names are
    /// generated.
    pub fn local(
        &self,
        env: &Env,
        func: &LocalFunction,
        locals: &mut ModuleLocals,
        name: &str,
    ) -> (id: LocalId)
        requires
            self.inv(env, func, old(locals)@),
            self.changed,
        ensures
            self.inv(env, func, final(locals)@),
            id.index == old(locals)@.len(),
            final(locals)@ == old(locals)@.push(
                LocalView {
                    ty: ValType::I32,
                    name: if self.generate_names {
                        Some(numbered(name@, id.index as nat))
                    } else {
                        None
                    },
                },
            ),
            forall|i: int|
                0 <= i < func.nodes().len() ==> (self.settled(
                    env.scope(old(locals)@),
                    func.nodes(),
                    i,
                ) <==> self.settled(env.scope(final(locals)@), func.nodes(), i)),
            self.follows(env, func, final(locals)@, -1, self.snap(func, old(locals)@)),
            is_i32_local(final(locals)@, id),
    {
        let id = locals.add(ValType::I32);
        if self.generate_names {
            locals.set_name(id, numbered_name(name, id.index));
        }
        proof {
            assert(locals@ =~= old(locals)@.push(
                LocalView {
                    ty: ValType::I32,
                    name: if self.generate_names {
                        Some(numbered(name@, id.index as nat))
                    } else {
                        None
                    },
                },
            ));
            self.lemma_more_locals(env, func, old(locals)@, locals@);
        }
        id
    }

    /// Whether `node` can take the place of the node at `id`, which is being visited.
    pub open spec fn admits_at(
        &self,
        func: &LocalFunction,
        locals: Seq<LocalView>,
        id: ExprId,
        node: ExprView,
    ) -> bool {
        &&& func.valid(id)
        &&& id.index < self.orig@.len()
        &&& self.marks@[id.index as int] is Active
        &&& node_ok(func.nodes(), func.tag(), node)
        &&& (node is Block <==> func.nodes()[id.index as int] is Block)
        &&& accessed_local(node) matches Some(l) ==> l.index < locals.len()
    }

    /// Replaces the node that is being visited.
    pub fn amend(
        &self,
        env: &Env,
        func: &mut LocalFunction,
        locals: &ModuleLocals,
        id: ExprId,
        node: Expr,
    )
        requires
            self.inv(env, old(func), locals@),
            self.changed,
            self.admits_at(old(func), locals@, id, node@),
        ensures
            self.inv(env, final(func), locals@),
            final(func).same_but_nodes(old(func)),
            final(func).nodes() == old(func).nodes().update(id.index as int, node@),
            self.follows(
                env,
                final(func),
                locals@,
                id.index as int,
                self.snap(old(func), locals@),
            ),
    {
        let slot = func.get_mut(id);
        *slot = node;
        proof {
            let scope = env.scope(locals@);
            let before = old(func).nodes();
            let after = func.nodes();
            assert(!self.settled(scope, before, id.index as int));
            assert forall|i: int| 0 <= i < after.len() implies node_ok(
                after,
                func.tag(),
                #[trigger] after[i],
            ) by {
                if i != id.index {
                    assert(node_ok(before, func.tag(), before[i]));
                }
            }
            assert forall|i: int, k: int|
                0 <= i < after.len() && self.settled(scope, after, i) && 0 <= k
                    < after[i].children().len() implies self.settled(
                scope,
                after,
                (#[trigger] after[i].children()[k]).index as int,
            ) by {
                assert(self.settled(scope, before, i));
                assert(self.settled(scope, before, before[i].children()[k].index as int));
            }
        }
    }

    /// Replaces the operand at position `k` of the node that is being visited.
    pub fn patch(
        &self,
        env: &Env,
        func: &mut LocalFunction,
        locals: &ModuleLocals,
        id: ExprId,
        k: usize,
        child: ExprId,
    )
        requires
            self.inv(env, old(func), locals@),
            self.changed,
            old(func).valid(id),
            id.index < self.orig@.len(),
            self.marks@[id.index as int] is Active,
            k < old(func).nodes()[id.index as int].children().len(),
            old(func).valid(child),
            child.index >= self.orig@.len(),
            old(func).nodes()[id.index as int] is IfElse ==> k == 0,
        ensures
            self.inv(env, final(func), locals@),
            final(func).same_but_nodes(old(func)),
            final(func).nodes() == old(func).nodes().update(
                id.index as int,
                old(func).nodes()[id.index as int].with_child(k as int, child),
            ),
            final(func).nodes()[id.index as int].children()
                == old(func).nodes()[id.index as int].children().update(k as int, child),
            self.follows(
                env,
                final(func),
                locals@,
                id.index as int,
                self.snap(old(func), locals@),
            ),
    {
        let ghost node = func.nodes()[id.index as int];
        let slot = func.get_mut(id);
        slot.set_child(k, child);
        proof {
            let scope = env.scope(locals@);
            let before = old(func).nodes();
            let after = func.nodes();
            let patched = node.with_child(k as int, child);
            assert(patched.children() =~= node.children().update(k as int, child));
            assert(node_ok(before, func.tag(), node));
            assert forall|j: int| 0 <= j < patched.children().len() implies valid_id(
                after,
                func.tag(),
                #[trigger] patched.children()[j],
            ) by {
                if j != k {
                    assert(valid_id(before, func.tag(), node.children()[j]));
                }
            }
            assert(!self.settled(scope, before, id.index as int));
            assert forall|i: int| 0 <= i < after.len() implies node_ok(
                after,
                func.tag(),
                #[trigger] after[i],
            ) by {
                if i != id.index {
                    assert(node_ok(before, func.tag(), before[i]));
                }
            }
            assert forall|i: int, j: int|
                0 <= i < after.len() && self.settled(scope, after, i) && 0 <= j
                    < after[i].children().len() implies self.settled(
                scope,
                after,
                (#[trigger] after[i].children()[j]).index as int,
            ) by {
                assert(self.settled(scope, before, i));
                assert(self.settled(scope, before, before[i].children()[j].index as int));
            }
            assert(accessed_local(patched) == accessed_local(node));
        }
    }

    /// Records that the phase is done with the node at `id`, and which node its parents
    /// must refer to instead, if any.
    pub fn seal(
        &mut self,
        env: &Env,
        func: &LocalFunction,
        locals: &ModuleLocals,
        id: ExprId,
        replacement: Option<ExprId>,
    )
        requires
            old(self).inv(env, func, locals@),
            func.valid(id),
            id.index < old(self).orig@.len(),
            old(self).marks@[id.index as int] is Active || old(self).marks@[id.index as int]
                == Mark::Done(None),
            match replacement {
                None => lowered(env.scope(locals@), func.nodes()[id.index as int]),
                Some(r) => func.valid(r) && r.index >= old(self).orig@.len() && !(
                func.nodes()[id.index as int] is Block) && old(self).changed,
            },
            lowered(env.scope(locals@), func.nodes()[id.index as int]) ==> forall|k: int|
                0 <= k < func.nodes()[id.index as int].children().len() ==> old(self).settled(
                    env.scope(locals@),
                    func.nodes(),
                    (#[trigger] func.nodes()[id.index as int].children()[k]).index as int,
                ),
        ensures
            final(self).inv(env, func, locals@),
            final(self).same_but_marks(old(self)),
            final(self).marks@ == old(self).marks@.update(id.index as int, Mark::Done(replacement)),
            unseen(final(self).marks@) == unseen(old(self).marks@),
            final(self).follows(env, func, locals@, id.index as int, old(self).snap(func, locals@)),
    {
        self.marks.set(id.index, Mark::Done(replacement));
        proof {
            lemma_unseen_update(old(self).marks@, id.index as int, Mark::Done(replacement));
            let scope = env.scope(locals@);
            let nodes = func.nodes();
            assert forall|i: int|
                0 <= i < nodes.len() && old(self).settled(scope, nodes, i) implies self.settled(
                scope,
                nodes,
                i,
            ) by {}
            assert forall|i: int, k: int|
                0 <= i < nodes.len() && self.settled(scope, nodes, i) && 0 <= k
                    < nodes[i].children().len() implies self.settled(
                scope,
                nodes,
                (#[trigger] nodes[i].children()[k]).index as int,
            ) by {
                if i != id.index {
                    assert(old(self).settled(scope, nodes, i));
                }
                assert(old(self).settled(scope, nodes, nodes[i].children()[k].index as int));
            }
        }
    }

    /// Changes the result of the block that is being visited from a 64-bit integer to a
    /// 32-bit integer.
    pub fn retype_block(
        &self,
        env: &Env,
        func: &mut LocalFunction,
        locals: &ModuleLocals,
        id: ExprId,
    )
        requires
            self.inv(env, old(func), locals@),
            self.changed,
            old(func).is_block(id),
            id.index < self.orig@.len(),
            self.marks@[id.index as int] is Active,
        ensures
            self.inv(env, final(func), locals@),
            final(func).same_but_nodes(old(func)),
            final(func).nodes() == old(func).nodes().update(
                id.index as int,
                ExprView::Block(
                    BlockView { results: seq![ValType::I32], ..old(func).block_at(BlockId { id }) },
                ),
            ),
            self.follows(
                env,
                final(func),
                locals@,
                id.index as int,
                self.snap(old(func), locals@),
            ),
    {
        let block = func.block_mut(BlockId { id });
        let mut results: Vec<ValType> = Vec::new();
        results.push(ValType::I32);
        block.results = results;
        proof {
            let scope = env.scope(locals@);
            let before = old(func).nodes();
            let after = func.nodes();
            assert(after[id.index as int] == ExprView::Block(
                BlockView { results: seq![ValType::I32], ..old(func).block_at(BlockId { id }) },
            ));
            assert(!self.settled(scope, before, id.index as int));
            assert(node_ok(before, func.tag(), before[id.index as int]));
            assert forall|i: int| 0 <= i < after.len() implies node_ok(
                after,
                func.tag(),
                #[trigger] after[i],
            ) by {
                if i != id.index {
                    assert(node_ok(before, func.tag(), before[i]));
                }
            }
            assert forall|i: int, k: int|
                0 <= i < after.len() && self.settled(scope, after, i) && 0 <= k
                    < after[i].children().len() implies self.settled(
                scope,
                after,
                (#[trigger] after[i].children()[k]).index as int,
            ) by {
                assert(self.settled(scope, before, i));
                assert(self.settled(scope, before, before[i].children()[k].index as int));
            }
        }
    }

    /// Makes a block, whose last expression leaves the high bits of a 64-bit value, end in
    /// three expressions instead: `set_high`, which keeps the high bits, `set_low`, which
    /// moves the low bits, and `get_high`, which leaves the high bits.
    pub fn retail_block(
        &self,
        env: &Env,
        func: &mut LocalFunction,
        locals: &ModuleLocals,
        block: BlockId,
        set_high: ExprId,
        set_low: ExprId,
        get_high: ExprId,
    )
        requires
            self.inv(env, old(func), locals@),
            self.changed,
            old(func).is_block(block.id),
            old(func).block_at(block).exprs.len() > 0,
            block.id.index < self.orig@.len() ==> !(self.marks@[block.id.index as int] is Unseen),
            old(func).valid(set_high) && set_high.index >= self.orig@.len(),
            old(func).valid(set_low) && set_low.index >= self.orig@.len(),
            old(func).valid(get_high) && get_high.index >= self.orig@.len(),
        ensures
            self.inv(env, final(func), locals@),
            final(func).same_but_nodes(old(func)),
            final(func).nodes() == old(func).nodes().update(
                block.id.index as int,
                ExprView::Block(
                    BlockView {
                        exprs: old(func).block_at(block).exprs.drop_last().push(set_high).push(
                            set_low,
                        ).push(get_high),
                        ..old(func).block_at(block)
                    },
                ),
            ),
            self.follows(
                env,
                final(func),
                locals@,
                block.id.index as int,
                self.snap(old(func), locals@),
            ),
            block.id.index >= self.orig@.len() || self.marks@[block.id.index as int] is Done
                ==> self.follows(env, final(func), locals@, -1, self.snap(old(func), locals@)),
    {
        let ghost was = func.block_at(block);
        let found = func.block_mut(block);
        let last = found.exprs.len() - 1;
        found.exprs.set(last, set_high);
        found.exprs.push(set_low);
        found.exprs.push(get_high);
        let count = found.exprs.len();
        proof {
            let scope = env.scope(locals@);
            let before = old(func).nodes();
            let after = func.nodes();
            let now = BlockView {
                exprs: was.exprs.drop_last().push(set_high).push(set_low).push(get_high),
                ..was
            };
            assert(found@.exprs =~= now.exprs);
            assert(after[block.id.index as int] == ExprView::Block(now));
            assert(node_ok(before, func.tag(), before[block.id.index as int]));
            assert forall|k: int| 0 <= k < now.exprs.len() implies valid_id(
                after,
                func.tag(),
                #[trigger] now.exprs[k],
            ) && self.settled(scope, before, now.exprs[k].index as int)
                || !self.settled(scope, before, block.id.index as int) by {
                if k < was.exprs.len() - 1 {
                    assert(now.exprs[k] == before[block.id.index as int].children()[k]);
                }
            }
            assert forall|k: int| 0 <= k < now.exprs.len() implies valid_id(
                after,
                func.tag(),
                #[trigger] now.exprs[k],
            ) by {
                if k < was.exprs.len() - 1 {
                    assert(now.exprs[k] == before[block.id.index as int].children()[k]);
                }
            }
            assert forall|i: int| 0 <= i < after.len() implies node_ok(
                after,
                func.tag(),
                #[trigger] after[i],
            ) by {
                if i != block.id.index {
                    assert(node_ok(before, func.tag(), before[i]));
                }
            }
            assert forall|i: int, k: int|
                0 <= i < after.len() && self.settled(scope, after, i) && 0 <= k
                    < after[i].children().len() implies self.settled(
                scope,
                after,
                (#[trigger] after[i].children()[k]).index as int,
            ) by {
                assert(self.settled(scope, before, i));
                if i != block.id.index {
                    assert(self.settled(scope, before, before[i].children()[k].index as int));
                } else if k < was.exprs.len() - 1 {
                    assert(now.exprs[k] == before[i].children()[k]);
                    assert(self.settled(scope, before, before[i].children()[k].index as int));
                }
            }
        }
    }

    /// Spill the expression `bits` into a 32-bit local, returning the `local.set`
    /// instruction as well as the local we spilled to.
    pub fn spill(
        &self,
        env: &Env,
        func: &mut LocalFunction,
        locals: &mut ModuleLocals,
        bits: ExprId,
    ) -> (spilled: (ExprId, LocalId))
        requires
            self.inv(env, old(func), old(locals)@),
            self.changed,
            old(func).valid(bits),
            self.settled(env.scope(old(locals)@), old(func).nodes(), bits.index as int),
        ensures
            self.inv(env, final(func), final(locals)@),
            spilled.1.index == old(locals)@.len(),
            is_i32_local(final(locals)@, spilled.1),
            final(locals)@ == old(locals)@.push(
                LocalView {
                    ty: ValType::I32,
                    name: if self.generate_names {
                        Some(numbered("temp_low"@, spilled.1.index as nat))
                    } else {
                        None
                    },
                },
            ),
            final(func).appended(
                old(func),
                ExprView::LocalSet(LocalSet { local: spilled.1, value: bits }),
                spilled.0,
            ),
            self.follows(env, final(func), final(locals)@, -1, self.snap(old(func), old(locals)@)),
    {
        let local = self.local(env, func, locals, "temp_low");
        let local_set = self.emit(
            env,
            func,
            locals,
            Expr::LocalSet(LocalSet { local, value: bits }),
        );
        (local_set, local)
    }

    /// Builds the block that stands for a 64-bit value whose low bits `low_bits` computes
    /// and whose high bits `high_bits` computes: it moves the low bits into a fresh local,
    /// recorded as the block's low-bits local, and leaves the high bits.
    ///
    /// Note that `low_bits` is evaluated before `high_bits`!
    pub fn split(
        &mut self,
        env: &Env,
        func: &mut LocalFunction,
        locals: &mut ModuleLocals,
        low_bits: ExprId,
        high_bits: ExprId,
    ) -> (block: ExprId)
        requires
            old(self).inv(env, old(func), old(locals)@),
            old(self).changed,
            old(func).valid(low_bits),
            old(func).valid(high_bits),
            old(self).settled(env.scope(old(locals)@), old(func).nodes(), low_bits.index as int),
            old(self).settled(env.scope(old(locals)@), old(func).nodes(), high_bits.index as int),
        ensures
            final(self).inv(env, final(func), final(locals)@),
            final(self).marks == old(self).marks,
            final(self).same_but_low_bits(old(self)),
            final(self).low_bits@ == old(self).low_bits@.insert(
                block.index,
                LocalId { index: old(locals)@.len() as usize },
            ),
            final(locals)@ == old(locals)@.push(
                LocalView {
                    ty: ValType::I32,
                    name: if old(self).generate_names {
                        Some(numbered("temp_low"@, old(locals)@.len()))
                    } else {
                        None
                    },
                },
            ),
            final(func).same_but_nodes(old(func)),
            final(func).nodes() == old(func).nodes().push(
                ExprView::LocalSet(
                    LocalSet {
                        local: LocalId { index: old(locals)@.len() as usize },
                        value: low_bits,
                    },
                ),
            ).push(
                ExprView::Block(
                    plain(
                        seq![ValType::I32],
                        seq![
                            ExprId {
                                arena: old(func).tag(),
                                index: old(func).nodes().len() as usize,
                            },
                            high_bits,
                        ],
                    ),
                ),
            ),
            block.arena == old(func).tag(),
            block.index == old(func).nodes().len() + 1,
            final(self).follows(
                env,
                final(func),
                final(locals)@,
                -1,
                old(self).snap(old(func), old(locals)@),
            ),
    {
        let (local_set, local) = self.spill(env, func, locals, low_bits);
        let block = self.emit(
            env,
            func,
            locals,
            Expr::Block(plain_block(types1(ValType::I32), exprs2(local_set, high_bits))),
        );
        self.low_bits.insert(block.index, local);
        block
    }

    /// Builds the block of `a` followed by `b`, two expressions that leave no value.
    pub fn consume(
        &self,
        env: &Env,
        func: &mut LocalFunction,
        locals: &ModuleLocals,
        a: ExprId,
        b: ExprId,
    ) -> (block: ExprId)
        requires
            self.inv(env, old(func), locals@),
            self.changed,
            old(func).valid(a),
            old(func).valid(b),
            self.settled(env.scope(locals@), old(func).nodes(), a.index as int),
            self.settled(env.scope(locals@), old(func).nodes(), b.index as int),
        ensures
            self.inv(env, final(func), locals@),
            final(func).appended(
                old(func),
                ExprView::Block(plain(Seq::empty(), seq![a, b])),
                block,
            ),
            self.follows(env, final(func), locals@, -1, self.snap(old(func), locals@)),
    {
        self.emit(env, func, locals, Expr::Block(plain_block(types0(), exprs2(a, b))))
    }

    /// Makes the block at `id`, with which the phase is done, a plain block.
    pub fn demote(&self, env: &Env, func: &mut LocalFunction, locals: &ModuleLocals, id: ExprId)
        requires
            self.inv(env, old(func), locals@),
            self.changed,
            old(func).is_block(id),
            id.index < self.orig@.len(),
            self.marks@[id.index as int] is Done,
        ensures
            self.inv(env, final(func), locals@),
            final(func).same_but_nodes(old(func)),
            final(func).nodes() == old(func).nodes().update(
                id.index as int,
                ExprView::Block(
                    BlockView { kind: BlockKind::Block, ..old(func).block_at(BlockId { id }) },
                ),
            ),
            forall|i: int|
                0 <= i < old(func).nodes().len() ==> (self.settled(
                    env.scope(locals@),
                    old(func).nodes(),
                    i,
                ) <==> self.settled(env.scope(locals@), final(func).nodes(), i)),
    {
        let block = func.block_mut(BlockId { id });
        block.kind = BlockKind::Block;
        proof {
            let scope = env.scope(locals@);
            let before = old(func).nodes();
            let after = func.nodes();
            assert(after[id.index as int] == ExprView::Block(
                BlockView { kind: BlockKind::Block, ..old(func).block_at(BlockId { id }) },
            ));
            assert(node_ok(before, func.tag(), before[id.index as int]));
            assert(after[id.index as int].children() == before[id.index as int].children());
            assert forall|i: int| 0 <= i < after.len() implies node_ok(
                after,
                func.tag(),
                #[trigger] after[i],
            ) by {
                assert(node_ok(before, func.tag(), before[i]));
            }
            assert forall|i: int| 0 <= i < before.len() implies (self.settled(scope, before, i)
                <==> self.settled(scope, after, i)) by {}
            assert forall|i: int, k: int|
                0 <= i < after.len() && self.settled(scope, after, i) && 0 <= k
                    < after[i].children().len() implies self.settled(
                scope,
                after,
                (#[trigger] after[i].children()[k]).index as int,
            ) by {
                assert(self.settled(scope, before, i));
                assert(after[i].children() == before[i].children());
                assert(self.settled(scope, before, before[i].children()[k].index as int));
            }
        }
    }

    /// Makes the function leave the low bits of its result in `global`: its entry block
    /// becomes a plain block, and a new entry block keeps the high bits that the old one
    /// leaves, writes the local `low` to `global` and leaves the high bits.
    pub fn exit_through(
        &self,
        env: &Env,
        func: &mut LocalFunction,
        locals: &mut ModuleLocals,
        global: GlobalId,
        low: LocalId,
    )
        requires
            self.inv(env, old(func), old(locals)@),
            self.changed,
            old(func).entry().id.index < self.orig@.len(),
            self.marks@[old(func).entry().id.index as int] is Done,
            self.settled(
                env.scope(old(locals)@),
                old(func).nodes(),
                old(func).entry().id.index as int,
            ),
            is_i32_local(old(locals)@, low),
            !is_i64_global(env.globals@, global),
        ensures
            self.inv(env, final(func), final(locals)@),
            final(func).same_but_body(old(func)),
            final(func).nodes().len() == old(func).nodes().len() + 5,
            final(func).entry().id.index == old(func).nodes().len() + 4,
            left_through(
                final(func).nodes(),
                final(func).tag(),
                old(func).entry().id,
                final(func).entry().id,
                global,
            ),
            final(locals)@ == old(locals)@.push(
                temp(ValType::I32, self.generate_names, "result_high"@, old(locals)@.len()),
            ),
    {
        let inner = func.entry_block();
        let ghost base = func.nodes().len();
        self.demote(env, func, locals, inner.id);
        let high = self.local(env, func, locals, "result_high");
        let set_high = self.emit(
            env,
            func,
            locals,
            Expr::LocalSet(LocalSet { local: high, value: inner.id }),
        );
        let get_low = self.emit(env, func, locals, Expr::LocalGet(LocalGet { local: low }));
        let set_low = self.emit(
            env,
            func,
            locals,
            Expr::GlobalSet(GlobalSet { global, value: get_low }),
        );
        let get_high = self.emit(env, func, locals, Expr::LocalGet(LocalGet { local: high }));
        let outer = self.emit(
            env,
            func,
            locals,
            Expr::Block(
                Block {
                    kind: BlockKind::FunctionEntry,
                    params: types0(),
                    results: types1(ValType::I32),
                    exprs: exprs3(set_high, set_low, get_high),
                },
            ),
        );
        func.set_entry_block(BlockId { id: outer });
        proof {
            assert(func.nodes().subrange(base as int, func.nodes().len() as int) =~= exit_nodes(
                func.tag(),
                base,
                inner.id,
                low,
                high,
                global,
            ));
        }
    }

    /// Whether `other` is this state but for its record of low-bits locals.
    pub open spec fn same_but_low_bits(&self, other: &RemoveI64) -> bool {
        &&& self.func_id == other.func_id
        &&& self.changed == other.changed
        &&& self.marks == other.marks
        &&& self.local_halves == other.local_halves
        &&& self.memory == other.memory
        &&& self.generate_names == other.generate_names
        &&& self.orig == other.orig
        &&& self.locals0 == other.locals0
        &&& self.rank == other.rank
    }

    /// Whether `other` is this state but for its marks, its records and whether anything
    /// was rewritten.
    pub open spec fn same_phase(&self, other: &RemoveI64) -> bool {
        &&& self.func_id == other.func_id
        &&& self.memory == other.memory
        &&& self.generate_names == other.generate_names
        &&& self.orig == other.orig
        &&& self.locals0 == other.locals0
        &&& self.rank == other.rank
    }

    /// Whether the node at `id` is being visited and its operands are part of the
    /// rewritten body, so that the node itself can be rewritten.
    pub open spec fn ready(
        &self,
        env: &Env,
        func: &LocalFunction,
        locals: Seq<LocalView>,
        id: ExprId,
    ) -> bool {
        &&& self.inv(env, func, locals)
        &&& func.valid(id)
        &&& id.index < self.orig@.len()
        &&& self.marks@[id.index as int] is Active
        &&& forall|k: int|
            0 <= k < func.nodes()[id.index as int].children().len() ==> self.settled(
                env.scope(locals),
                func.nodes(),
                (#[trigger] func.nodes()[id.index as int].children()[k]).index as int,
            )
    }

    /// What rewriting the node at `id` promises, whatever the node: where it succeeds,
    /// the invariant holds again, the phase is done with the node, and `result` is the node
    /// that takes its place, if any; where nothing had been rewritten and the node is
    /// lowered, it succeeds and nothing is rewritten.
    pub open spec fn left(
        &self,
        before: &RemoveI64,
        env: &Env,
        func: &LocalFunction,
        func_before: &LocalFunction,
        locals: Seq<LocalView>,
        locals_before: Seq<LocalView>,
        id: ExprId,
        result: Result<Option<ExprId>, Error>,
    ) -> bool {
        &&& result matches Ok(r) ==> {
            &&& self.inv(env, func, locals)
            &&& self.follows(
                env,
                func,
                locals,
                id.index as int,
                before.snap(func_before, locals_before),
            )
            &&& self.marks@ =~= before.marks@.update(id.index as int, Mark::Done(r))
            &&& func.same_but_nodes(func_before)
            &&& self.same_phase(before)
            &&& r matches Some(other) ==> other.index >= func_before.nodes().len()
        }
        &&& !before.changed && lowered(
            env.scope(locals_before),
            func_before.nodes()[id.index as int],
        ) ==> result == Ok::<Option<ExprId>, Error>(None) && !self.changed
        &&& result matches Err(e) ==> e is Unimplemented
    }

    /// Whether the state `after` is this state once the node at `id` is rewritten as
    /// `shape` says, with `result`: the visited node is what the shape makes of it, the nodes
    /// and the locals of the shape are added, the last node added takes the place of the
    /// visited node, and its low-bits local is recorded where it has one.
    pub open spec fn shaped(
        &self,
        after: &RemoveI64,
        func: &LocalFunction,
        func_after: &LocalFunction,
        locals: Seq<LocalView>,
        locals_after: Seq<LocalView>,
        id: ExprId,
        shape: Shape,
        result: Result<Option<ExprId>, Error>,
    ) -> bool {
        let last = (func.nodes().len() + shape.nodes.len() - 1) as nat;
        &&& result == Ok::<Option<ExprId>, Error>(Some(at(func.tag(), last)))
        &&& func_after.nodes() == (match shape.node {
            Some(node) => func.nodes().update(id.index as int, node),
            None => func.nodes(),
        }) + shape.nodes
        &&& locals_after == locals + shape.locals
        &&& after.low_bits@ == (match shape.low {
            Some(local) => self.low_bits@.insert(last as usize, local),
            None => self.low_bits@,
        })
        &&& after.local_halves@ == self.local_halves@
    }

    /// Whether the state `after` is this state with the node at `id` left alone.
    pub open spec fn kept(
        &self,
        after: &RemoveI64,
        func: &LocalFunction,
        func_after: &LocalFunction,
        locals: Seq<LocalView>,
        locals_after: Seq<LocalView>,
        result: Result<Option<ExprId>, Error>,
    ) -> bool {
        &&& result == Ok::<Option<ExprId>, Error>(None)
        &&& func_after.nodes() == func.nodes()
        &&& locals_after == locals
        &&& after.low_bits@ == self.low_bits@
        &&& after.local_halves@ == self.local_halves@
    }

    /// Shows [`shaped`](Self::shaped) from its parts.
    pub proof fn lemma_shaped(
        &self,
        after: &RemoveI64,
        func: &LocalFunction,
        func_after: &LocalFunction,
        locals: Seq<LocalView>,
        locals_after: Seq<LocalView>,
        id: ExprId,
        shape: Shape,
        out: ExprId,
    )
        requires
            shape.nodes.len() > 0,
            out.arena == func.tag(),
            out.index == func.nodes().len() + shape.nodes.len() - 1,
            func_after.nodes() =~= (match shape.node {
                Some(node) => func.nodes().update(id.index as int, node),
                None => func.nodes(),
            }) + shape.nodes,
            locals_after =~= locals + shape.locals,
            after.low_bits@ =~= (match shape.low {
                Some(local) => self.low_bits@.insert(out.index, local),
                None => self.low_bits@,
            }),
            after.local_halves@ == self.local_halves@,
        ensures
            self.shaped(
                after,
                func,
                func_after,
                locals,
                locals_after,
                id,
                shape,
                Ok::<Option<ExprId>, Error>(Some(out)),
            ),
    {
    }

    /// Notes that something is being rewritten.
    pub fn touch(&mut self, env: &Env, func: &LocalFunction, locals: &ModuleLocals)
        requires
            old(self).inv(env, func, locals@),
        ensures
            final(self).inv(env, func, locals@),
            final(self).changed,
            final(self).marks == old(self).marks,
            final(self).low_bits == old(self).low_bits,
            final(self).local_halves == old(self).local_halves,
            final(self).same_phase(old(self)),
            final(self).follows(env, func, locals@, -1, old(self).snap(func, locals@)),
    {
        self.changed = true;
    }

    /// Leaves the node at `id` as it is.
    pub fn keep(
        &mut self,
        env: &Env,
        func: &LocalFunction,
        locals: &ModuleLocals,
        id: ExprId,
    ) -> (result: Result<Option<ExprId>, Error>)
        requires
            old(self).ready(env, func, locals@, id),
            lowered(env.scope(locals@), func.nodes()[id.index as int]),
        ensures
            final(self).left(old(self), env, func, func, locals@, locals@, id, result),
            result == Ok::<Option<ExprId>, Error>(None),
            final(self).changed == old(self).changed,
            final(self).low_bits == old(self).low_bits,
            final(self).local_halves == old(self).local_halves,
    {
        self.seal(env, func, locals, id, None);
        Ok(None)
    }

    /// Rewrites a literal: a 64-bit literal becomes two 32-bit literals, its low and its
    /// high half, joined by [`split`](Self::split).
    pub fn visit_const(
        &mut self,
        env: &Env,
        func: &mut LocalFunction,
        locals: &mut ModuleLocals,
        id: ExprId,
        node: Const,
    ) -> (result: Result<Option<ExprId>, Error>)
        requires
            old(self).ready(env, old(func), old(locals)@, id),
            old(func).nodes()[id.index as int] == ExprView::Const(node),
        ensures
            final(self).left(
                old(self),
                env,
                final(func),
                old(func),
                final(locals)@,
                old(locals)@,
                id,
                result,
            ),
            match node.value {
                Value::I64(value) => {
                    let base = old(func).nodes().len();
                    let local = local_at(old(locals)@.len());
                    &&& result == Ok::<Option<ExprId>, Error>(Some(at(old(func).tag(), base + 3)))
                    &&& final(func).nodes() == old(func).nodes() + const_nodes(
                        old(func).tag(),
                        base,
                        local,
                        value,
                    )
                    &&& final(locals)@ == old(locals)@.push(
                        temp(ValType::I32, old(self).generate_names, "temp_low"@, old(locals)@.len()),
                    )
                    &&& final(self).low_bits@ == old(self).low_bits@.insert((base + 3) as usize, local)
                    &&& final(self).local_halves@ == old(self).local_halves@
                },
                _ => {
                    &&& result == Ok::<Option<ExprId>, Error>(None)
                    &&& final(func).nodes() == old(func).nodes()
                    &&& final(locals)@ == old(locals)@
                    &&& final(self).low_bits@ == old(self).low_bits@
                    &&& final(self).local_halves@ == old(self).local_halves@
                },
            },
    {
        match node.value {
            Value::I64(val) => {
                self.touch(env, func, locals);
                let low = self.emit(
                    env,
                    func,
                    locals,
                    Expr::Const(Const { value: Value::I32(low_bits_of(val)) }),
                );
                let high = self.emit(
                    env,
                    func,
                    locals,
                    Expr::Const(Const { value: Value::I32(high_bits_of(val)) }),
                );
                let block = self.split(env, func, locals, low, high);
                self.seal(env, func, locals, id, Some(block));
                Ok(Some(block))
            },
            _ => self.keep(env, func, locals, id),
        }
    }

    /// Whether `other` is this state but for its record of split locals.
    pub open spec fn same_but_local_halves(&self, other: &RemoveI64) -> bool {
        &&& self.func_id == other.func_id
        &&& self.changed == other.changed
        &&& self.marks == other.marks
        &&& self.low_bits == other.low_bits
        &&& self.memory == other.memory
        &&& self.generate_names == other.generate_names
        &&& self.orig == other.orig
        &&& self.locals0 == other.locals0
        &&& self.rank == other.rank
    }

    /// The pair of locals that stands for the 64-bit local `local` already, if it was
    /// split before or is an argument that the analysis split.
    pub open spec fn known_halves(&self, env: &Env, local: LocalId) -> Option<Replace<LocalId>> {
        if self.local_halves@.contains_key(local.index) {
            Some(self.local_halves@[local.index])
        } else if env.analysis.arguments@.contains_key(local.index) {
            Some(env.analysis.arguments@[local.index])
        } else {
            None
        }
    }

    /// The pair of locals that stands for the 64-bit local `local`: the known pair, or the
    /// two locals that come next in the table `locals`.
    pub open spec fn halves_of(
        &self,
        env: &Env,
        locals: Seq<LocalView>,
        local: LocalId,
    ) -> Replace<LocalId> {
        match self.known_halves(env, local) {
            Some(pair) => pair,
            None => Replace { low: local_at(locals.len()), high: local_at(locals.len() + 1) },
        }
    }

    /// The table of locals once the 64-bit local `local` is split: as it was where the
    /// pair is known, and with the two halves added, named after the local, where it is not.
    pub open spec fn locals_with_halves(
        &self,
        env: &Env,
        locals: Seq<LocalView>,
        local: LocalId,
    ) -> Seq<LocalView> {
        match self.known_halves(env, local) {
            Some(_) => locals,
            None => {
                let name = locals[local.index as int].name;
                locals.push(
                    LocalView {
                        ty: ValType::I32,
                        name: if self.generate_names {
                            Some(half_named(name, local.index as nat, "_low"@))
                        } else {
                            None
                        },
                    },
                ).push(
                    LocalView {
                        ty: ValType::I32,
                        name: if self.generate_names {
                            Some(half_named(name, local.index as nat, "_high"@))
                        } else {
                            None
                        },
                    },
                )
            },
        }
    }

    /// The record of split locals once the 64-bit local `local` is split.
    pub open spec fn halves_recorded(
        &self,
        env: &Env,
        locals: Seq<LocalView>,
        local: LocalId,
    ) -> Map<usize, Replace<LocalId>> {
        match self.known_halves(env, local) {
            Some(_) => self.local_halves@,
            None => self.local_halves@.insert(local.index, self.halves_of(env, locals, local)),
        }
    }

    /// Returns the two 32-bit locals used for the 64-bit local specified.
    ///
    /// If the `local` hasn't already been split then this function goes ahead and splits
    /// it, assigning new low/high bit locals for it: a local that was split before, or that
    /// the analysis split as an argument, keeps its pair; any other gets two fresh locals,
    /// the low half before the high half, which are recorded.
    pub fn local_halves(
        &mut self,
        env: &Env,
        func: &LocalFunction,
        locals: &mut ModuleLocals,
        local: LocalId,
    ) -> (pair: Replace<LocalId>)
        requires
            old(self).inv(env, func, old(locals)@),
            old(self).changed,
            local.index < old(locals)@.len(),
        ensures
            final(self).inv(env, func, final(locals)@),
            final(self).same_but_local_halves(old(self)),
            final(self).follows(env, func, final(locals)@, -1, old(self).snap(func, old(locals)@)),
            is_i32_local(final(locals)@, pair.low),
            is_i32_local(final(locals)@, pair.high),
            pair == old(self).halves_of(env, old(locals)@, local),
            final(locals)@ == old(self).locals_with_halves(env, old(locals)@, local),
            final(self).local_halves@ == old(self).halves_recorded(env, old(locals)@, local),
    {
        // Check our local cache first to see if we've already split this local
        if let Some(pair) = self.local_halves.get(&local.index) {
            return *pair;
        }
        // Next check if we've already split this local because it's a function argument
        if let Some(pair) = env.analysis.arguments.get(&local.index) {
            return *pair;
        }
        // ... otherwise actually split it and cache the results!
        let low = locals.add(ValType::I32);
        let high = locals.add(ValType::I32);
        if self.generate_names {
            let low_name = half_name(locals.get(local).name(), local.index, "_low");
            let high_name = half_name(locals.get(local).name(), local.index, "_high");
            locals.set_name(low, low_name);
            locals.set_name(high, high_name);
        }
        let pair = Replace { low, high };
        self.local_halves.insert(local.index, pair);
        proof {
            let name = old(locals)@[local.index as int].name;
            assert(locals@ =~= old(locals)@.push(
                LocalView {
                    ty: ValType::I32,
                    name: if old(self).generate_names {
                        Some(half_named(name, local.index as nat, "_low"@))
                    } else {
                        None
                    },
                },
            ).push(
                LocalView {
                    ty: ValType::I32,
                    name: if old(self).generate_names {
                        Some(half_named(name, local.index as nat, "_high"@))
                    } else {
                        None
                    },
                },
            ));
            old(self).lemma_more_locals(env, func, old(locals)@, locals@);
        }
        pair
    }

    /// Rewrites a read of a global: a read of a split global becomes a read of its low
    /// half, joined with a read of its high half by [`split`](Self::split).
    pub fn visit_global_get(
        &mut self,
        env: &Env,
        func: &mut LocalFunction,
        locals: &mut ModuleLocals,
        id: ExprId,
        node: GlobalGet,
    ) -> (result: Result<Option<ExprId>, Error>)
        requires
            old(self).ready(env, old(func), old(locals)@, id),
            old(func).nodes()[id.index as int] == ExprView::GlobalGet(node),
        ensures
            final(self).left(
                old(self),
                env,
                final(func),
                old(func),
                final(locals)@,
                old(locals)@,
                id,
                result,
            ),
            final(self).local_halves@ == old(self).local_halves@,
            if env.analysis.globals@.contains_key(node.global.index) {
                let pair = env.analysis.globals@[node.global.index];
                let base = old(func).nodes().len();
                let local = local_at(old(locals)@.len());
                &&& result == Ok::<Option<ExprId>, Error>(Some(at(old(func).tag(), base + 2)))
                &&& final(func).nodes() == old(func).nodes().update(
                    id.index as int,
                    global_get(pair.low),
                ) + read_nodes(old(func).tag(), base, local, id, global_get(pair.high))
                &&& final(locals)@ == old(locals)@.push(
                    temp(ValType::I32, old(self).generate_names, "temp_low"@, old(locals)@.len()),
                )
                &&& final(self).low_bits@ == old(self).low_bits@.insert((base + 2) as usize, local)
            } else {
                &&& result == Ok::<Option<ExprId>, Error>(None)
                &&& final(func).nodes() == old(func).nodes()
                &&& final(locals)@ == old(locals)@
                &&& final(self).low_bits@ == old(self).low_bits@
            },
    {
        let replace = match env.analysis.globals.get(&node.global.index) {
            Some(r) => *r,
            None => {
                return self.keep(env, func, locals, id);
            },
        };
        self.touch(env, func, locals);
        // Turn this `expr` into a fetch of the low bits, allocate a new expr for a fetch
        // of the high bits, and then split with those two exprs
        self.amend(env, func, locals, id, Expr::GlobalGet(GlobalGet { global: replace.low }));
        self.seal(env, func, locals, id, None);
        let high_bits = self.emit(
            env,
            func,
            locals,
            Expr::GlobalGet(GlobalGet { global: replace.high }),
        );
        let block = self.split(env, func, locals, id, high_bits);
        self.seal(env, func, locals, id, Some(block));
        Ok(Some(block))
    }

    /// Rewrites a write of a global: a write of a split global becomes a write of its high
    /// half, followed by a write of the low bits of the value to its low half.
    pub fn visit_global_set(
        &mut self,
        env: &Env,
        func: &mut LocalFunction,
        locals: &mut ModuleLocals,
        id: ExprId,
        node: GlobalSet,
    ) -> (result: Result<Option<ExprId>, Error>)
        requires
            old(self).ready(env, old(func), old(locals)@, id),
            old(func).nodes()[id.index as int] == ExprView::GlobalSet(node),
        ensures
            final(self).left(
                old(self),
                env,
                final(func),
                old(func),
                final(locals)@,
                old(locals)@,
                id,
                result,
            ),
            result is Err <==> env.analysis.globals@.contains_key(node.global.index)
                && !old(self).low_bits@.contains_key(node.value.index),
            result is Err ==> result == Err::<Option<ExprId>, Error>(
                Error::Unimplemented(Unimplemented::MissingLowBits),
            ),
            final(self).local_halves@ == old(self).local_halves@,
            final(self).low_bits@ == old(self).low_bits@,
            final(locals)@ == old(locals)@,
            result is Ok ==> if env.analysis.globals@.contains_key(node.global.index) {
                let pair = env.analysis.globals@[node.global.index];
                let base = old(func).nodes().len();
                &&& result == Ok::<Option<ExprId>, Error>(Some(at(old(func).tag(), base + 2)))
                &&& final(func).nodes() == old(func).nodes().update(
                    id.index as int,
                    global_set(pair.high, node.value),
                ) + write_nodes(
                    old(func).tag(),
                    base,
                    old(self).low_bits@[node.value.index],
                    id,
                    global_set(pair.low, at(old(func).tag(), base)),
                )
            } else {
                &&& result == Ok::<Option<ExprId>, Error>(None)
                &&& final(func).nodes() == old(func).nodes()
            },
    {
        let replace = match env.analysis.globals.get(&node.global.index) {
            Some(r) => *r,
            None => {
                return self.keep(env, func, locals, id);
            },
        };
        let local = match self.low_bits.get(&node.value.index) {
            Some(l) => *l,
            None => {
                return Err(Error::Unimplemented(Unimplemented::MissingLowBits));
            },
        };
        self.touch(env, func, locals);
        // The `expr.value` expression is the high bits of the value along with the
        // computation tree, so execute that first by updating where this expression stores
        // into.
        assert(node.value == func.nodes()[id.index as int].children()[0]);
        self.amend(
            env,
            func,
            locals,
            id,
            Expr::GlobalSet(GlobalSet { global: replace.high, value: node.value }),
        );
        assert(func.nodes()[id.index as int].children() =~= seq![node.value]);
        self.seal(env, func, locals, id, None);
        // Afterwards we need to fetch the local with the low bits and then store that
        // into the low bits of the global.
        let low_bits = self.emit(env, func, locals, Expr::LocalGet(LocalGet { local }));
        let low_bits = self.emit(
            env,
            func,
            locals,
            Expr::GlobalSet(GlobalSet { global: replace.low, value: low_bits }),
        );
        let block = self.consume(env, func, locals, id, low_bits);
        self.seal(env, func, locals, id, Some(block));
        Ok(Some(block))
    }

    /// Rewrites a read of a local: a read of a 64-bit local becomes a read of its low
    /// half, joined with a read of its high half by [`split`](Self::split).
    pub fn visit_local_get(
        &mut self,
        env: &Env,
        func: &mut LocalFunction,
        locals: &mut ModuleLocals,
        id: ExprId,
        node: LocalGet,
    ) -> (result: Result<Option<ExprId>, Error>)
        requires
            old(self).ready(env, old(func), old(locals)@, id),
            old(func).nodes()[id.index as int] == ExprView::LocalGet(node),
        ensures
            final(self).left(
                old(self),
                env,
                final(func),
                old(func),
                final(locals)@,
                old(locals)@,
                id,
                result,
            ),
            if is_i64_local(old(locals)@, node.local) {
                let pair = old(self).halves_of(env, old(locals)@, node.local);
                let split = old(self).locals_with_halves(env, old(locals)@, node.local);
                let base = old(func).nodes().len();
                let local = local_at(split.len());
                &&& result == Ok::<Option<ExprId>, Error>(Some(at(old(func).tag(), base + 2)))
                &&& final(func).nodes() == old(func).nodes().update(id.index as int, local_get(pair.low))
                    + read_nodes(old(func).tag(), base, local, id, local_get(pair.high))
                &&& final(locals)@ == split.push(
                    temp(ValType::I32, old(self).generate_names, "temp_low"@, split.len()),
                )
                &&& final(self).low_bits@ == old(self).low_bits@.insert((base + 2) as usize, local)
                &&& final(self).local_halves@ == old(self).halves_recorded(
                    env,
                    old(locals)@,
                    node.local,
                )
            } else {
                &&& result == Ok::<Option<ExprId>, Error>(None)
                &&& final(func).nodes() == old(func).nodes()
                &&& final(locals)@ == old(locals)@
                &&& final(self).low_bits@ == old(self).low_bits@
                &&& final(self).local_halves@ == old(self).local_halves@
            },
    {
        assert(accessed_local(func.nodes()[id.index as int]) == Some(node.local));
        if locals.get(node.local).ty() != ValType::I64 {
            return self.keep(env, func, locals, id);
        }
        self.touch(env, func, locals);
        // See `global.get` for more info, this is the same as that basically
        let replace = self.local_halves(env, func, locals, node.local);
        self.amend(env, func, locals, id, Expr::LocalGet(LocalGet { local: replace.low }));
        self.seal(env, func, locals, id, None);
        let high_bits = self.emit(
            env,
            func,
            locals,
            Expr::LocalGet(LocalGet { local: replace.high }),
        );
        let block = self.split(env, func, locals, id, high_bits);
        self.seal(env, func, locals, id, Some(block));
        Ok(Some(block))
    }

    /// Rewrites a write of a local: a write of a 64-bit local becomes a write of its high
    /// half, followed by a write of the low bits of the value to its low half.
    pub fn visit_local_set(
        &mut self,
        env: &Env,
        func: &mut LocalFunction,
        locals: &mut ModuleLocals,
        id: ExprId,
        node: LocalSet,
    ) -> (result: Result<Option<ExprId>, Error>)
        requires
            old(self).ready(env, old(func), old(locals)@, id),
            old(func).nodes()[id.index as int] == ExprView::LocalSet(node),
        ensures
            final(self).left(
                old(self),
                env,
                final(func),
                old(func),
                final(locals)@,
                old(locals)@,
                id,
                result,
            ),
            result is Err <==> is_i64_local(old(locals)@, node.local)
                && !old(self).low_bits@.contains_key(node.value.index),
            result is Err ==> result == Err::<Option<ExprId>, Error>(
                Error::Unimplemented(Unimplemented::MissingLowBits),
            ),
            final(self).low_bits@ == old(self).low_bits@,
            result is Ok ==> if is_i64_local(old(locals)@, node.local) {
                let pair = old(self).halves_of(env, old(locals)@, node.local);
                let base = old(func).nodes().len();
                &&& result == Ok::<Option<ExprId>, Error>(Some(at(old(func).tag(), base + 2)))
                &&& final(func).nodes() == old(func).nodes().update(
                    id.index as int,
                    local_set(pair.high, node.value),
                ) + write_nodes(
                    old(func).tag(),
                    base,
                    old(self).low_bits@[node.value.index],
                    id,
                    local_set(pair.low, at(old(func).tag(), base)),
                )
                &&& final(locals)@ == old(self).locals_with_halves(env, old(locals)@, node.local)
                &&& final(self).local_halves@ == old(self).halves_recorded(
                    env,
                    old(locals)@,
                    node.local,
                )
            } else {
                &&& result == Ok::<Option<ExprId>, Error>(None)
                &&& final(func).nodes() == old(func).nodes()
                &&& final(locals)@ == old(locals)@
                &&& final(self).local_halves@ == old(self).local_halves@
            },
    {
        assert(accessed_local(func.nodes()[id.index as int]) == Some(node.local));
        if locals.get(node.local).ty() != ValType::I64 {
            return self.keep(env, func, locals, id);
        }
        let local = match self.low_bits.get(&node.value.index) {
            Some(l) => *l,
            None => {
                return Err(Error::Unimplemented(Unimplemented::MissingLowBits));
            },
        };
        self.touch(env, func, locals);
        assert(node.value == func.nodes()[id.index as int].children()[0]);
        // See `global.get` for more info, this is the same as that basically
        let replace = self.local_halves(env, func, locals, node.local);
        self.amend(
            env,
            func,
            locals,
            id,
            Expr::LocalSet(LocalSet { local: replace.high, value: node.value }),
        );
        assert(func.nodes()[id.index as int].children() =~= seq![node.value]);
        self.seal(env, func, locals, id, None);
        let low_bits = self.emit(env, func, locals, Expr::LocalGet(LocalGet { local }));
        let low_bits = self.emit(
            env,
            func,
            locals,
            Expr::LocalSet(LocalSet { local: replace.low, value: low_bits }),
        );
        let block = self.consume(env, func, locals, id, low_bits);
        self.seal(env, func, locals, id, Some(block));
        Ok(Some(block))
    }

    /// Rewrites a tee of a local. A tee of a 64-bit local becomes
    ///
    /// ```text
    ///  (block (result i32)
    ///      (local.set $tmp
    ///          (block (result i32)
    ///              (local.set $local_high ($high_bits))
    ///              (local.tee $local_low (local.get $low_bits))))
    ///      (local.get $local_high))
    /// ```
    ///
    /// The high bits go into the local's own high half, the low bits are teed from the
    /// value's low-bits local into the local's low half, and the high half is fetched again.
    pub fn visit_local_tee(
        &mut self,
        env: &Env,
        func: &mut LocalFunction,
        locals: &mut ModuleLocals,
        id: ExprId,
        node: LocalTee,
    ) -> (result: Result<Option<ExprId>, Error>)
        requires
            old(self).ready(env, old(func), old(locals)@, id),
            old(func).nodes()[id.index as int] == ExprView::LocalTee(node),
        ensures
            final(self).left(
                old(self),
                env,
                final(func),
                old(func),
                final(locals)@,
                old(locals)@,
                id,
                result,
            ),
            result is Err <==> is_i64_local(old(locals)@, node.local)
                && !old(self).low_bits@.contains_key(node.value.index),
            result is Err ==> result == Err::<Option<ExprId>, Error>(
                Error::Unimplemented(Unimplemented::MissingLowBits),
            ),
            result is Ok ==> if is_i64_local(old(locals)@, node.local) {
                let pair = old(self).halves_of(env, old(locals)@, node.local);
                let split = old(self).locals_with_halves(env, old(locals)@, node.local);
                let base = old(func).nodes().len();
                let local = local_at(split.len());
                &&& result == Ok::<Option<ExprId>, Error>(Some(at(old(func).tag(), base + 6)))
                &&& final(func).nodes() == old(func).nodes() + tee_nodes(
                    old(func).tag(),
                    base,
                    local,
                    pair.low,
                    pair.high,
                    old(self).low_bits@[node.value.index],
                    node.value,
                )
                &&& final(locals)@ == split.push(
                    temp(ValType::I32, old(self).generate_names, "temp_low"@, split.len()),
                )
                &&& final(self).low_bits@ == old(self).low_bits@.insert((base + 6) as usize, local)
                &&& final(self).local_halves@ == old(self).halves_recorded(
                    env,
                    old(locals)@,
                    node.local,
                )
            } else {
                &&& result == Ok::<Option<ExprId>, Error>(None)
                &&& final(func).nodes() == old(func).nodes()
                &&& final(locals)@ == old(locals)@
                &&& final(self).low_bits@ == old(self).low_bits@
                &&& final(self).local_halves@ == old(self).local_halves@
            },
    {
        assert(accessed_local(func.nodes()[id.index as int]) == Some(node.local));
        if locals.get(node.local).ty() != ValType::I64 {
            return self.keep(env, func, locals, id);
        }
        let low_temp = match self.low_bits.get(&node.value.index) {
            Some(l) => *l,
            None => {
                return Err(Error::Unimplemented(Unimplemented::MissingLowBits));
            },
        };
        self.touch(env, func, locals);
        assert(node.value == func.nodes()[id.index as int].children()[0]);
        let replace = self.local_halves(env, func, locals, node.local);
        let set_high = self.emit(
            env,
            func,
            locals,
            Expr::LocalSet(LocalSet { local: replace.high, value: node.value }),
        );
        let get_low_temp = self.emit(env, func, locals, Expr::LocalGet(LocalGet { local: low_temp }));
        let tee_low = self.emit(
            env,
            func,
            locals,
            Expr::LocalTee(LocalTee { local: replace.low, value: get_low_temp }),
        );
        let get_high = self.emit(
            env,
            func,
            locals,
            Expr::LocalGet(LocalGet { local: replace.high }),
        );
        let block = self.emit(
            env,
            func,
            locals,
            Expr::Block(plain_block(types1(ValType::I32), exprs2(set_high, tee_low))),
        );
        let out = self.split(env, func, locals, block, get_high);
        self.seal(env, func, locals, id, Some(out));
        Ok(Some(out))
    }

    /// What the rewrite of the 64-bit bitwise operation `node` at `id` makes of the state
    /// `self`: three fresh locals, the nodes of [`bitop_nodes`], and the operation itself
    /// turned into the 32-bit operation `op32` on the spilled high operands.
    pub open spec fn bitop_done(
        &self,
        after: &RemoveI64,
        func: &LocalFunction,
        func_after: &LocalFunction,
        locals: Seq<LocalView>,
        locals_after: Seq<LocalView>,
        id: ExprId,
        node: Binop,
        op32: BinaryOp,
        result: Result<Option<ExprId>, Error>,
    ) -> bool {
        let tag = func.tag();
        let base = func.nodes().len();
        let lhs_high = local_at(locals.len());
        let rhs_high = local_at(locals.len() + 1);
        let local = local_at(locals.len() + 2);
        &&& result == Ok::<Option<ExprId>, Error>(Some(at(tag, base + 9)))
        &&& func_after.nodes() == func.nodes().update(
            id.index as int,
            binop(op32, at(tag, base + 6), at(tag, base + 7)),
        ) + bitop_nodes(
            tag,
            base,
            local,
            id,
            op32,
            node.lhs,
            node.rhs,
            self.low_bits@[node.lhs.index],
            self.low_bits@[node.rhs.index],
            lhs_high,
            rhs_high,
        )
        &&& locals_after == locals.push(
            temp(ValType::I32, self.generate_names, "binop_lhs_high"@, locals.len()),
        ).push(temp(ValType::I32, self.generate_names, "binop_rhs_high"@, locals.len() + 1)).push(
            temp(ValType::I32, self.generate_names, "temp_low"@, locals.len() + 2),
        )
        &&& after.low_bits@ == self.low_bits@.insert((base + 9) as usize, local)
        &&& after.local_halves@ == self.local_halves@
    }

    /// Replaces a 64-bit bitwise operation with two 32-bit components: the high operands
    /// are spilled into temporaries, the low word is the 32-bit operation on the operands'
    /// low-bits locals, and the node itself becomes the 32-bit operation on the spilled
    /// high operands.
    #[verifier::rlimit(60)]
    pub fn binary_bitop(
        &mut self,
        env: &Env,
        func: &mut LocalFunction,
        locals: &mut ModuleLocals,
        id: ExprId,
        node: Binop,
        op32: BinaryOp,
    ) -> (result: Result<Option<ExprId>, Error>)
        requires
            old(self).ready(env, old(func), old(locals)@, id),
            old(func).nodes()[id.index as int] == ExprView::Binop(node),
            node.op.touches_i64(),
            !op32.touches_i64(),
        ensures
            final(self).left(
                old(self),
                env,
                final(func),
                old(func),
                final(locals)@,
                old(locals)@,
                id,
                result,
            ),
            result is Err <==> !old(self).low_bits@.contains_key(node.lhs.index)
                || !old(self).low_bits@.contains_key(node.rhs.index),
            result is Err ==> result == Err::<Option<ExprId>, Error>(
                Error::Unimplemented(Unimplemented::MissingLowBits),
            ),
            result is Ok ==> old(self).bitop_done(
                final(self),
                old(func),
                final(func),
                old(locals)@,
                final(locals)@,
                id,
                node,
                op32,
                result,
            ),
    {
        let lhs_low = match self.low_bits.get(&node.lhs.index) {
            Some(l) => *l,
            None => {
                return Err(Error::Unimplemented(Unimplemented::MissingLowBits));
            },
        };
        let rhs_low = match self.low_bits.get(&node.rhs.index) {
            Some(l) => *l,
            None => {
                return Err(Error::Unimplemented(Unimplemented::MissingLowBits));
            },
        };
        self.touch(env, func, locals);
        assert(node.lhs == func.nodes()[id.index as int].children()[0]);
        assert(node.rhs == func.nodes()[id.index as int].children()[1]);
        let lhs_temp_high = self.local(env, func, locals, "binop_lhs_high");
        let rhs_temp_high = self.local(env, func, locals, "binop_rhs_high");
        let lhs_temp = self.emit(
            env,
            func,
            locals,
            Expr::LocalSet(LocalSet { local: lhs_temp_high, value: node.lhs }),
        );
        let rhs_temp = self.emit(
            env,
            func,
            locals,
            Expr::LocalSet(LocalSet { local: rhs_temp_high, value: node.rhs }),
        );
        let lhs = self.emit(env, func, locals, Expr::LocalGet(LocalGet { local: lhs_low }));
        let rhs = self.emit(env, func, locals, Expr::LocalGet(LocalGet { local: rhs_low }));
        let low = self.emit(env, func, locals, Expr::Binop(Binop { op: op32, lhs, rhs }));
        let low = self.emit(
            env,
            func,
            locals,
            Expr::Block(plain_block(types1(ValType::I32), exprs3(lhs_temp, rhs_temp, low))),
        );
        let get_lhs = self.emit(
            env,
            func,
            locals,
            Expr::LocalGet(LocalGet { local: lhs_temp_high }),
        );
        let get_rhs = self.emit(
            env,
            func,
            locals,
            Expr::LocalGet(LocalGet { local: rhs_temp_high }),
        );
        self.amend(
            env,
            func,
            locals,
            id,
            Expr::Binop(Binop { op: op32, lhs: get_lhs, rhs: get_rhs }),
        );
        assert(func.nodes()[id.index as int].children() =~= seq![get_lhs, get_rhs]);
        self.seal(env, func, locals, id, None);
        let out = self.split(env, func, locals, low, id);
        self.seal(env, func, locals, id, Some(out));
        proof {
            let tag = old(func).tag();
            let base = old(func).nodes().len();
            assert(func.nodes() =~= old(func).nodes().update(
                id.index as int,
                binop(op32, at(tag, base + 6), at(tag, base + 7)),
            ) + bitop_nodes(
                tag,
                base,
                local_at(old(locals)@.len() + 2),
                id,
                op32,
                node.lhs,
                node.rhs,
                lhs_low,
                rhs_low,
                lhs_temp_high,
                rhs_temp_high,
            ));
        }
        Ok(Some(out))
    }

    /// Rewrites a binary operation: the 64-bit `and`, `or` and `xor` are split into
    /// 32-bit halves, every other operator on 64-bit integers is refused, and the rest is
    /// left alone.
    pub fn visit_binop(
        &mut self,
        env: &Env,
        func: &mut LocalFunction,
        locals: &mut ModuleLocals,
        id: ExprId,
        node: Binop,
    ) -> (result: Result<Option<ExprId>, Error>)
        requires
            old(self).ready(env, old(func), old(locals)@, id),
            old(func).nodes()[id.index as int] == ExprView::Binop(node),
        ensures
            final(self).left(
                old(self),
                env,
                final(func),
                old(func),
                final(locals)@,
                old(locals)@,
                id,
                result,
            ),
            result == Err::<Option<ExprId>, Error>(Error::Unimplemented(Unimplemented::Binop))
                <==> node.op.touches_i64() && node.op.bitwise_half() is None,
            result == Err::<Option<ExprId>, Error>(
                Error::Unimplemented(Unimplemented::MissingLowBits),
            ) <==> node.op.bitwise_half() is Some && (!old(self).low_bits@.contains_key(
                node.lhs.index,
            ) || !old(self).low_bits@.contains_key(node.rhs.index)),
            result is Err ==> result == Err::<Option<ExprId>, Error>(
                Error::Unimplemented(Unimplemented::Binop),
            ) || result == Err::<Option<ExprId>, Error>(
                Error::Unimplemented(Unimplemented::MissingLowBits),
            ),
            result is Ok ==> match node.op.bitwise_half() {
                Some(op32) => old(self).bitop_done(
                    final(self),
                    old(func),
                    final(func),
                    old(locals)@,
                    final(locals)@,
                    id,
                    node,
                    op32,
                    result,
                ),
                None => {
                    &&& result == Ok::<Option<ExprId>, Error>(None)
                    &&& final(func).nodes() == old(func).nodes()
                    &&& final(locals)@ == old(locals)@
                    &&& final(self).low_bits@ == old(self).low_bits@
                    &&& final(self).local_halves@ == old(self).local_halves@
                },
            },
    {
        match node.op.half() {
            Some(op32) => self.binary_bitop(env, func, locals, id, node, op32),
            None => {
                if node.op.is_i64() {
                    Err(Error::Unimplemented(Unimplemented::Binop))
                } else {
                    self.keep(env, func, locals, id)
                }
            },
        }
    }

    /// The expression that sign-extends the 32-bit value that `low` leaves: `low` is teed
    /// into a scratch local, and the high bits are that local shifted right by 31,
    /// arithmetically. The two are joined by [`split`](Self::split).
    pub fn sign_extend(
        &mut self,
        env: &Env,
        func: &mut LocalFunction,
        locals: &mut ModuleLocals,
        local: LocalId,
        low: ExprId,
    ) -> (block: ExprId)
        requires
            old(self).inv(env, old(func), old(locals)@),
            old(self).changed,
            is_i32_local(old(locals)@, local),
            old(func).valid(low),
            old(self).settled(env.scope(old(locals)@), old(func).nodes(), low.index as int),
        ensures
            final(self).inv(env, final(func), final(locals)@),
            final(self).marks == old(self).marks,
            final(self).same_but_low_bits(old(self)),
            final(self).low_bits@ == old(self).low_bits@.insert(
                block.index,
                local_at(old(locals)@.len()),
            ),
            final(func).same_but_nodes(old(func)),
            final(func).valid(block),
            block.arena == old(func).tag(),
            block.index == old(func).nodes().len() + 5,
            final(func).nodes() == old(func).nodes() + sign_extend_nodes(
                old(func).tag(),
                old(func).nodes().len(),
                local,
                local_at(old(locals)@.len()),
                low,
            ),
            final(locals)@ == old(locals)@.push(
                temp(ValType::I32, old(self).generate_names, "temp_low"@, old(locals)@.len()),
            ),
            final(self).follows(
                env,
                final(func),
                final(locals)@,
                -1,
                old(self).snap(old(func), old(locals)@),
            ),
    {
        let tee_low = self.emit(env, func, locals, Expr::LocalTee(LocalTee { local, value: low }));
        let amt = self.emit(env, func, locals, Expr::Const(Const { value: Value::I32(31) }));
        let get_low = self.emit(env, func, locals, Expr::LocalGet(LocalGet { local }));
        let shift = self.emit(
            env,
            func,
            locals,
            Expr::Binop(Binop { op: BinaryOp::I32ShrS, lhs: get_low, rhs: amt }),
        );
        self.split(env, func, locals, tee_low, shift)
    }

    /// The expression that counts the zero bits at one end of a 64-bit value, whose high
    /// bits `operand` leaves and whose low bits are in the local `low`:
    ///
    /// ```text
    ///  (block (result i32)
    ///      (local.set $high $operand)
    ///      (select
    ///          (i32.eqz (local.get $first))
    ///          (i32.add (i32.const 32) (count (local.get $second)))
    ///          (count (local.get $first))))
    /// ```
    ///
    /// where `first` is the half at the end from which zeros are counted (the high half for
    /// leading, the low half for trailing zeros), `second` the other half and `count` the
    /// 32-bit operator `count`. The high bits of the result are zero.
    #[verifier::rlimit(80)]
    pub fn count_zeros(
        &mut self,
        env: &Env,
        func: &mut LocalFunction,
        locals: &mut ModuleLocals,
        operand: ExprId,
        low: LocalId,
        leading: bool,
    ) -> (block: ExprId)
        requires
            old(self).inv(env, old(func), old(locals)@),
            old(self).changed,
            is_i32_local(old(locals)@, low),
            old(func).valid(operand),
            old(self).settled(env.scope(old(locals)@), old(func).nodes(), operand.index as int),
        ensures
            final(self).inv(env, final(func), final(locals)@),
            final(self).marks == old(self).marks,
            final(self).same_but_low_bits(old(self)),
            final(self).low_bits@ == old(self).low_bits@.insert(
                block.index,
                local_at(old(locals)@.len() + 1),
            ),
            final(func).same_but_nodes(old(func)),
            final(func).valid(block),
            block.arena == old(func).tag(),
            block.index == old(func).nodes().len() + 12,
            final(func).nodes() == old(func).nodes() + count_zeros_nodes(
                old(func).tag(),
                old(func).nodes().len(),
                local_at(old(locals)@.len()),
                local_at(old(locals)@.len() + 1),
                operand,
                low,
                leading,
            ),
            final(locals)@ == old(locals)@.push(
                temp(
                    ValType::I32,
                    old(self).generate_names,
                    if leading {
                        "clz"@
                    } else {
                        "ctz"@
                    },
                    old(locals)@.len(),
                ),
            ).push(
                temp(ValType::I32, old(self).generate_names, "temp_low"@, old(locals)@.len() + 1),
            ),
            final(self).follows(
                env,
                final(func),
                final(locals)@,
                -1,
                old(self).snap(old(func), old(locals)@),
            ),
    {
        let high = self.local(env, func, locals, if leading {
            "clz"
        } else {
            "ctz"
        });
        let count = if leading {
            UnaryOp::I32Clz
        } else {
            UnaryOp::I32Ctz
        };
        let set_high = self.emit(
            env,
            func,
            locals,
            Expr::LocalSet(LocalSet { local: high, value: operand }),
        );
        let load_low = self.emit(env, func, locals, Expr::LocalGet(LocalGet { local: low }));
        let select = if leading {
            let load_high = self.emit(env, func, locals, Expr::LocalGet(LocalGet { local: high }));
            let condition = self.emit(
                env,
                func,
                locals,
                Expr::Unop(Unop { op: UnaryOp::I32Eqz, expr: load_high }),
            );
            let clz_low = self.emit(
                env,
                func,
                locals,
                Expr::Unop(Unop { op: count, expr: load_low }),
            );
            let c32 = self.emit(env, func, locals, Expr::Const(Const { value: Value::I32(32) }));
            let if_true = self.emit(
                env,
                func,
                locals,
                Expr::Binop(Binop { op: BinaryOp::I32Add, lhs: c32, rhs: clz_low }),
            );
            let if_false = self.emit(
                env,
                func,
                locals,
                Expr::Unop(Unop { op: count, expr: load_high }),
            );
            self.emit(
                env,
                func,
                locals,
                Expr::Select(Select { condition, consequent: if_true, alternative: if_false }),
            )
        } else {
            let condition = self.emit(
                env,
                func,
                locals,
                Expr::Unop(Unop { op: UnaryOp::I32Eqz, expr: load_low }),
            );
            let load_high = self.emit(env, func, locals, Expr::LocalGet(LocalGet { local: high }));
            let ctz_high = self.emit(
                env,
                func,
                locals,
                Expr::Unop(Unop { op: count, expr: load_high }),
            );
            let c32 = self.emit(env, func, locals, Expr::Const(Const { value: Value::I32(32) }));
            let if_true = self.emit(
                env,
                func,
                locals,
                Expr::Binop(Binop { op: BinaryOp::I32Add, lhs: c32, rhs: ctz_high }),
            );
            let if_false = self.emit(
                env,
                func,
                locals,
                Expr::Unop(Unop { op: count, expr: load_low }),
            );
            self.emit(
                env,
                func,
                locals,
                Expr::Select(Select { condition, consequent: if_true, alternative: if_false }),
            )
        };
        let block = self.emit(
            env,
            func,
            locals,
            Expr::Block(plain_block(types1(ValType::I32), exprs2(set_high, select))),
        );
        let zero = self.emit(env, func, locals, Expr::Const(Const { value: Value::I32(0) }));
        self.split(env, func, locals, block, zero)
    }

    /// Whether the second phase rewrites the operator.
    pub open spec fn rewrites_unop(op: UnaryOp) -> bool {
        match op {
            UnaryOp::I64ExtendUI32
            | UnaryOp::I64ExtendSI32
            | UnaryOp::I64Extend32S
            | UnaryOp::I64Eqz
            | UnaryOp::I64Popcnt
            | UnaryOp::I32WrapI64
            | UnaryOp::I64Ctz
            | UnaryOp::I64Clz => true,
            _ => false,
        }
    }

    /// Whether the operator takes a 64-bit integer among those that the second phase
    /// rewrites.
    pub open spec fn consumes_i64(op: UnaryOp) -> bool {
        match op {
            UnaryOp::I64Extend32S
            | UnaryOp::I64Eqz
            | UnaryOp::I64Popcnt
            | UnaryOp::I32WrapI64
            | UnaryOp::I64Ctz
            | UnaryOp::I64Clz => true,
            _ => false,
        }
    }

    /// Rewrites a unary operation.
    ///
    /// Conversions between 64-bit integers and floats are refused, and so are the
    /// reinterpretations and the 8- and 16-bit extensions that the first phase removes. The
    /// extensions from 32 bits, `eqz`, `popcnt`, `clz`, `ctz` and `wrap` are rewritten; those
    /// of them that take a 64-bit integer need the low-bits local of their operand. Every
    /// other operator is left alone.
    pub fn visit_unop(
        &mut self,
        env: &Env,
        func: &mut LocalFunction,
        locals: &mut ModuleLocals,
        id: ExprId,
        node: Unop,
    ) -> (result: Result<Option<ExprId>, Error>)
        requires
            old(self).ready(env, old(func), old(locals)@, id),
            old(func).nodes()[id.index as int] == ExprView::Unop(node),
        ensures
            final(self).left(
                old(self),
                env,
                final(func),
                old(func),
                final(locals)@,
                old(locals)@,
                id,
                result,
            ),
            result == Err::<Option<ExprId>, Error>(Error::Unimplemented(Unimplemented::Unop))
                <==> node.op.touches_i64() && !Self::rewrites_unop(node.op),
            result == Err::<Option<ExprId>, Error>(
                Error::Unimplemented(Unimplemented::MissingLowBits),
            ) <==> Self::consumes_i64(node.op) && !old(self).low_bits@.contains_key(
                node.expr.index,
            ),
            result is Err ==> result == Err::<Option<ExprId>, Error>(
                Error::Unimplemented(Unimplemented::Unop),
            ) || result == Err::<Option<ExprId>, Error>(
                Error::Unimplemented(Unimplemented::MissingLowBits),
            ),
            result is Ok ==> if node.op.touches_i64() {
                old(self).shaped(
                    final(self),
                    old(func),
                    final(func),
                    old(locals)@,
                    final(locals)@,
                    id,
                    unop_shape(
                        old(func).tag(),
                        old(func).nodes().len(),
                        old(locals)@.len(),
                        old(self).generate_names,
                        id,
                        node.op,
                        node.expr,
                        old(self).low_bits@[node.expr.index],
                    ),
                    result,
                )
            } else {
                old(self).kept(
                    final(self),
                    old(func),
                    final(func),
                    old(locals)@,
                    final(locals)@,
                    result,
                )
            },
    {
        assert(node.expr == func.nodes()[id.index as int].children()[0]);
        match node.op {
            UnaryOp::I64ExtendUI32 => {
                self.touch(env, func, locals);
                // Pretty easy, the high bits are always zero!
                let zero = self.emit(env, func, locals, Expr::Const(Const { value: Value::I32(0) }));
                let out = self.split(env, func, locals, node.expr, zero);
                self.seal(env, func, locals, id, Some(out));
                proof {
                    let shape = unop_shape(
                        old(func).tag(),
                        old(func).nodes().len(),
                        old(locals)@.len(),
                        old(self).generate_names,
                        id,
                        node.op,
                        node.expr,
                        old(self).low_bits@[node.expr.index],
                    );
                    old(self).lemma_shaped(
                        self,
                        old(func),
                        func,
                        old(locals)@,
                        locals@,
                        id,
                        shape,
                        out,
                    );
                }
                Ok(Some(out))
            },
            UnaryOp::I64ExtendSI32 => {
                self.touch(env, func, locals);
                // We'll want to take the expression and unconditionally move them to the
                // low bits. The upper 32-bits are the 31st bit of the low bits, broadcast
                // to all bits (a signed shift right).
                let local = self.local(env, func, locals, "extend");
                let out = self.sign_extend(env, func, locals, local, node.expr);
                self.seal(env, func, locals, id, Some(out));
                proof {
                    let shape = unop_shape(
                        old(func).tag(),
                        old(func).nodes().len(),
                        old(locals)@.len(),
                        old(self).generate_names,
                        id,
                        node.op,
                        node.expr,
                        old(self).low_bits@[node.expr.index],
                    );
                    old(self).lemma_shaped(
                        self,
                        old(func),
                        func,
                        old(locals)@,
                        locals@,
                        id,
                        shape,
                        out,
                    );
                }
                Ok(Some(out))
            },
            UnaryOp::I64Extend32S
            | UnaryOp::I64Eqz
            | UnaryOp::I64Popcnt
            | UnaryOp::I32WrapI64
            | UnaryOp::I64Ctz
            | UnaryOp::I64Clz => {
                let low = match self.low_bits.get(&node.expr.index) {
                    Some(l) => *l,
                    None => {
                        return Err(Error::Unimplemented(Unimplemented::MissingLowBits));
                    },
                };
                self.touch(env, func, locals);
                self.lower_unop(env, func, locals, id, node, low)
            },
            _ => {
                if node.op.is_i64() {
                    Err(Error::Unimplemented(Unimplemented::Unop))
                } else {
                    self.keep(env, func, locals, id)
                }
            },
        }
    }

    /// Rewrites a unary operation on a 64-bit integer whose low bits are in the local
    /// `low`.
    #[verifier::rlimit(80)]
    pub fn lower_unop(
        &mut self,
        env: &Env,
        func: &mut LocalFunction,
        locals: &mut ModuleLocals,
        id: ExprId,
        node: Unop,
        low: LocalId,
    ) -> (result: Result<Option<ExprId>, Error>)
        requires
            old(self).ready(env, old(func), old(locals)@, id),
            old(self).changed,
            old(func).nodes()[id.index as int] == ExprView::Unop(node),
            Self::consumes_i64(node.op),
            is_i32_local(old(locals)@, low),
        ensures
            final(self).left(
                old(self),
                env,
                final(func),
                old(func),
                final(locals)@,
                old(locals)@,
                id,
                result,
            ),
            old(self).shaped(
                final(self),
                old(func),
                final(func),
                old(locals)@,
                final(locals)@,
                id,
                unop_shape(
                    old(func).tag(),
                    old(func).nodes().len(),
                    old(locals)@.len(),
                    old(self).generate_names,
                    id,
                    node.op,
                    node.expr,
                    low,
                ),
                result,
            ),
    {
        assert(node.expr == func.nodes()[id.index as int].children()[0]);
        match node.op {
            UnaryOp::I64Extend32S => {
                // Same as above, but our low bits are slightly different
                let local = self.local(env, func, locals, "extend");
                let load_low = self.emit(env, func, locals, Expr::LocalGet(LocalGet { local: low }));
                let drop_high = self.emit(env, func, locals, Expr::Drop(Drop { expr: node.expr }));
                let block = self.emit(
                    env,
                    func,
                    locals,
                    Expr::Block(plain_block(types1(ValType::I32), exprs2(drop_high, load_low))),
                );
                let out = self.sign_extend(env, func, locals, local, block);
                self.seal(env, func, locals, id, Some(out));
                proof {
                    let shape = unop_shape(
                        old(func).tag(),
                        old(func).nodes().len(),
                        old(locals)@.len(),
                        old(self).generate_names,
                        id,
                        node.op,
                        node.expr,
                        low,
                    );
                    old(self).lemma_shaped(
                        self,
                        old(func),
                        func,
                        old(locals)@,
                        locals@,
                        id,
                        shape,
                        out,
                    );
                }
                Ok(Some(out))
            },
            UnaryOp::I64Eqz => {
                // Turn ourselves into a 32-bit eqz, eqz the low bits, then and the
                // results.
                self.amend(
                    env,
                    func,
                    locals,
                    id,
                    Expr::Unop(Unop { op: UnaryOp::I32Eqz, expr: node.expr }),
                );
                assert(func.nodes()[id.index as int].children() =~= seq![node.expr]);
                self.seal(env, func, locals, id, None);
                let get_low = self.emit(env, func, locals, Expr::LocalGet(LocalGet { local: low }));
                let rhs = self.emit(
                    env,
                    func,
                    locals,
                    Expr::Unop(Unop { op: UnaryOp::I32Eqz, expr: get_low }),
                );
                let out = self.emit(
                    env,
                    func,
                    locals,
                    Expr::Binop(Binop { op: BinaryOp::I32And, lhs: id, rhs }),
                );
                self.seal(env, func, locals, id, Some(out));
                proof {
                    let shape = unop_shape(
                        old(func).tag(),
                        old(func).nodes().len(),
                        old(locals)@.len(),
                        old(self).generate_names,
                        id,
                        node.op,
                        node.expr,
                        low,
                    );
                    old(self).lemma_shaped(
                        self,
                        old(func),
                        func,
                        old(locals)@,
                        locals@,
                        id,
                        shape,
                        out,
                    );
                }
                Ok(Some(out))
            },
            UnaryOp::I64Popcnt => {
                // Turn ourselves into a 32-bit popcnt, and then our low bits are added
                // to our own popcnt (the high bits) to the popcnt of the low bits (the
                // local stored during computing the high bits)
                self.amend(
                    env,
                    func,
                    locals,
                    id,
                    Expr::Unop(Unop { op: UnaryOp::I32Popcnt, expr: node.expr }),
                );
                assert(func.nodes()[id.index as int].children() =~= seq![node.expr]);
                self.seal(env, func, locals, id, None);
                let get_low = self.emit(env, func, locals, Expr::LocalGet(LocalGet { local: low }));
                let rhs = self.emit(
                    env,
                    func,
                    locals,
                    Expr::Unop(Unop { op: UnaryOp::I32Popcnt, expr: get_low }),
                );
                let sum = self.emit(
                    env,
                    func,
                    locals,
                    Expr::Binop(Binop { op: BinaryOp::I32Add, lhs: id, rhs }),
                );
                // Low bits are the add, high bits are always zero as you can't have more
                // than 2^32 bits.
                let zero = self.emit(env, func, locals, Expr::Const(Const { value: Value::I32(0) }));
                let out = self.split(env, func, locals, sum, zero);
                self.seal(env, func, locals, id, Some(out));
                proof {
                    let shape = unop_shape(
                        old(func).tag(),
                        old(func).nodes().len(),
                        old(locals)@.len(),
                        old(self).generate_names,
                        id,
                        node.op,
                        node.expr,
                        low,
                    );
                    old(self).lemma_shaped(
                        self,
                        old(func),
                        func,
                        old(locals)@,
                        locals@,
                        id,
                        shape,
                        out,
                    );
                }
                Ok(Some(out))
            },
            UnaryOp::I32WrapI64 => {
                // Execute the high bits, drop them, and then return the low bits.
                let drop_high = self.emit(env, func, locals, Expr::Drop(Drop { expr: node.expr }));
                let load_low = self.emit(env, func, locals, Expr::LocalGet(LocalGet { local: low }));
                let out = self.emit(
                    env,
                    func,
                    locals,
                    Expr::Block(plain_block(types1(ValType::I32), exprs2(drop_high, load_low))),
                );
                self.seal(env, func, locals, id, Some(out));
                proof {
                    let shape = unop_shape(
                        old(func).tag(),
                        old(func).nodes().len(),
                        old(locals)@.len(),
                        old(self).generate_names,
                        id,
                        node.op,
                        node.expr,
                        low,
                    );
                    old(self).lemma_shaped(
                        self,
                        old(func),
                        func,
                        old(locals)@,
                        locals@,
                        id,
                        shape,
                        out,
                    );
                }
                Ok(Some(out))
            },
            UnaryOp::I64Ctz => {
                let out = self.count_zeros(env, func, locals, node.expr, low, false);
                self.seal(env, func, locals, id, Some(out));
                proof {
                    let shape = unop_shape(
                        old(func).tag(),
                        old(func).nodes().len(),
                        old(locals)@.len(),
                        old(self).generate_names,
                        id,
                        node.op,
                        node.expr,
                        low,
                    );
                    old(self).lemma_shaped(
                        self,
                        old(func),
                        func,
                        old(locals)@,
                        locals@,
                        id,
                        shape,
                        out,
                    );
                }
                Ok(Some(out))
            },
            _ => {
                let out = self.count_zeros(env, func, locals, node.expr, low, true);
                self.seal(env, func, locals, id, Some(out));
                proof {
                    let shape = unop_shape(
                        old(func).tag(),
                        old(func).nodes().len(),
                        old(locals)@.len(),
                        old(self).generate_names,
                        id,
                        node.op,
                        node.expr,
                        low,
                    );
                    old(self).lemma_shaped(
                        self,
                        old(func),
                        func,
                        old(locals)@,
                        locals@,
                        id,
                        shape,
                        out,
                    );
                }
                Ok(Some(out))
            },
        }
    }

    /// Rewrites a load. A plain 64-bit load becomes two 32-bit loads:
    ///
    /// ```text
    ///  (block (result i32)
    ///      (local.set $tmp_low
    ///          (i32.load (local.tee $tmp ($address))))
    ///      (i32.load offset=4 (local.get $tmp)))
    /// ```
    ///
    /// with the alignment capped at four. Any other load of a 64-bit integer is refused, and
    /// so is a plain one whose offset leaves no room for the second word.
    #[verifier::rlimit(60)]
    pub fn visit_load(
        &mut self,
        env: &Env,
        func: &mut LocalFunction,
        locals: &mut ModuleLocals,
        id: ExprId,
        node: Load,
    ) -> (result: Result<Option<ExprId>, Error>)
        requires
            old(self).ready(env, old(func), old(locals)@, id),
            old(func).nodes()[id.index as int] == ExprView::Load(node),
        ensures
            final(self).left(
                old(self),
                env,
                final(func),
                old(func),
                final(locals)@,
                old(locals)@,
                id,
                result,
            ),
            result == Err::<Option<ExprId>, Error>(Error::Unimplemented(Unimplemented::Load))
                <==> node.kind.touches_i64() && node.kind != (LoadKind::I64 { atomic: false }),
            result == Err::<Option<ExprId>, Error>(
                Error::Unimplemented(Unimplemented::MemoryOffset),
            ) <==> node.kind == (LoadKind::I64 { atomic: false }) && node.arg.offset + 4
                > u32::MAX,
            result is Err ==> result == Err::<Option<ExprId>, Error>(
                Error::Unimplemented(Unimplemented::Load),
            ) || result == Err::<Option<ExprId>, Error>(
                Error::Unimplemented(Unimplemented::MemoryOffset),
            ),
            result is Ok ==> if node.kind.touches_i64() {
                old(self).shaped(
                    final(self),
                    old(func),
                    final(func),
                    old(locals)@,
                    final(locals)@,
                    id,
                    load_shape(
                        old(func).tag(),
                        old(func).nodes().len(),
                        old(locals)@.len(),
                        old(self).generate_names,
                        id,
                        node,
                    ),
                    result,
                )
            } else {
                old(self).kept(
                    final(self),
                    old(func),
                    final(func),
                    old(locals)@,
                    final(locals)@,
                    result,
                )
            },
    {
        assert(node.address == func.nodes()[id.index as int].children()[0]);
        match node.kind {
            LoadKind::I64 { atomic: false } => {
                if node.arg.offset > u32::MAX - 4 {
                    return Err(Error::Unimplemented(Unimplemented::MemoryOffset));
                }
                self.touch(env, func, locals);
                let address_local = self.local(env, func, locals, "load_address");
                let address = self.emit(
                    env,
                    func,
                    locals,
                    Expr::LocalTee(LocalTee { local: address_local, value: node.address }),
                );
                let kind = LoadKind::I32 { atomic: false };
                let arg = node.arg.with_align(
                    if node.arg.align < 4 {
                        node.arg.align
                    } else {
                        4
                    },
                );
                let low = self.emit(
                    env,
                    func,
                    locals,
                    Expr::Load(Load { memory: node.memory, kind, arg, address }),
                );
                let address = self.emit(
                    env,
                    func,
                    locals,
                    Expr::LocalGet(LocalGet { local: address_local }),
                );
                self.amend(
                    env,
                    func,
                    locals,
                    id,
                    Expr::Load(
                        Load {
                            memory: node.memory,
                            kind,
                            arg: arg.with_offset(node.arg.offset + 4),
                            address,
                        },
                    ),
                );
                assert(func.nodes()[id.index as int].children() =~= seq![address]);
                self.seal(env, func, locals, id, None);
                let out = self.split(env, func, locals, low, id);
                self.seal(env, func, locals, id, Some(out));
                proof {
                    old(self).lemma_shaped(
                        self,
                        old(func),
                        func,
                        old(locals)@,
                        locals@,
                        id,
                        load_shape(
                            old(func).tag(),
                            old(func).nodes().len(),
                            old(locals)@.len(),
                            old(self).generate_names,
                            id,
                            node,
                        ),
                        out,
                    );
                }
                Ok(Some(out))
            },
            _ => {
                if node.kind.is_i64() {
                    Err(Error::Unimplemented(Unimplemented::Load))
                } else {
                    self.keep(env, func, locals, id)
                }
            },
        }
    }

    /// Rewrites a store. A plain 64-bit store becomes two 32-bit stores:
    ///
    /// ```text
    ///  (block
    ///      (i32.store offset=4 (local.tee $tmp ($address)) $high)
    ///      (i32.store (local.get $tmp) (local.get $low)))
    /// ```
    ///
    /// with the alignment capped at four. Any other store of a 64-bit integer is refused,
    /// and so is a plain one whose offset leaves no room for the second word or whose value
    /// has no low-bits local.
    #[verifier::rlimit(60)]
    pub fn visit_store(
        &mut self,
        env: &Env,
        func: &mut LocalFunction,
        locals: &mut ModuleLocals,
        id: ExprId,
        node: Store,
    ) -> (result: Result<Option<ExprId>, Error>)
        requires
            old(self).ready(env, old(func), old(locals)@, id),
            old(func).nodes()[id.index as int] == ExprView::Store(node),
        ensures
            final(self).left(
                old(self),
                env,
                final(func),
                old(func),
                final(locals)@,
                old(locals)@,
                id,
                result,
            ),
            result == Err::<Option<ExprId>, Error>(Error::Unimplemented(Unimplemented::Store))
                <==> node.kind.touches_i64() && node.kind != (StoreKind::I64 { atomic: false }),
            result == Err::<Option<ExprId>, Error>(
                Error::Unimplemented(Unimplemented::MemoryOffset),
            ) <==> node.kind == (StoreKind::I64 { atomic: false }) && node.arg.offset + 4
                > u32::MAX,
            result == Err::<Option<ExprId>, Error>(
                Error::Unimplemented(Unimplemented::MissingLowBits),
            ) <==> node.kind == (StoreKind::I64 { atomic: false }) && node.arg.offset + 4
                <= u32::MAX && !old(self).low_bits@.contains_key(node.value.index),
            result is Err ==> result == Err::<Option<ExprId>, Error>(
                Error::Unimplemented(Unimplemented::Store),
            ) || result == Err::<Option<ExprId>, Error>(
                Error::Unimplemented(Unimplemented::MemoryOffset),
            ) || result == Err::<Option<ExprId>, Error>(
                Error::Unimplemented(Unimplemented::MissingLowBits),
            ),
            result is Ok ==> if node.kind.touches_i64() {
                old(self).shaped(
                    final(self),
                    old(func),
                    final(func),
                    old(locals)@,
                    final(locals)@,
                    id,
                    store_shape(
                        old(func).tag(),
                        old(func).nodes().len(),
                        old(locals)@.len(),
                        old(self).generate_names,
                        id,
                        node,
                        old(self).low_bits@[node.value.index],
                    ),
                    result,
                )
            } else {
                old(self).kept(
                    final(self),
                    old(func),
                    final(func),
                    old(locals)@,
                    final(locals)@,
                    result,
                )
            },
    {
        assert(node.address == func.nodes()[id.index as int].children()[0]);
        assert(node.value == func.nodes()[id.index as int].children()[1]);
        match node.kind {
            StoreKind::I64 { atomic: false } => {
                if node.arg.offset > u32::MAX - 4 {
                    return Err(Error::Unimplemented(Unimplemented::MemoryOffset));
                }
                let local = match self.low_bits.get(&node.value.index) {
                    Some(l) => *l,
                    None => {
                        return Err(Error::Unimplemented(Unimplemented::MissingLowBits));
                    },
                };
                self.touch(env, func, locals);
                let address_local = self.local(env, func, locals, "store_address");
                let kind = StoreKind::I32 { atomic: false };
                let arg = node.arg.with_align(
                    if node.arg.align < 4 {
                        node.arg.align
                    } else {
                        4
                    },
                );
                let tee = self.emit(
                    env,
                    func,
                    locals,
                    Expr::LocalTee(LocalTee { local: address_local, value: node.address }),
                );
                self.amend(
                    env,
                    func,
                    locals,
                    id,
                    Expr::Store(
                        Store {
                            memory: node.memory,
                            kind,
                            arg: arg.with_offset(node.arg.offset + 4),
                            address: tee,
                            value: node.value,
                        },
                    ),
                );
                assert(func.nodes()[id.index as int].children() =~= seq![tee, node.value]);
                self.seal(env, func, locals, id, None);
                let low_bits = self.emit(env, func, locals, Expr::LocalGet(LocalGet { local }));
                let address = self.emit(
                    env,
                    func,
                    locals,
                    Expr::LocalGet(LocalGet { local: address_local }),
                );
                let low = self.emit(
                    env,
                    func,
                    locals,
                    Expr::Store(
                        Store { memory: node.memory, kind, arg, address, value: low_bits },
                    ),
                );
                let out = self.consume(env, func, locals, id, low);
                self.seal(env, func, locals, id, Some(out));
                proof {
                    old(self).lemma_shaped(
                        self,
                        old(func),
                        func,
                        old(locals)@,
                        locals@,
                        id,
                        store_shape(
                            old(func).tag(),
                            old(func).nodes().len(),
                            old(locals)@.len(),
                            old(self).generate_names,
                            id,
                            node,
                            local,
                        ),
                        out,
                    );
                }
                Ok(Some(out))
            },
            _ => {
                if node.kind.is_i64() {
                    Err(Error::Unimplemented(Unimplemented::Store))
                } else {
                    self.keep(env, func, locals, id)
                }
            },
        }
    }

    /// Whether an operand of `node` is a rewritten 64-bit producer.
    pub open spec fn carries_i64(&self, node: ExprView) -> bool {
        exists|k: int|
            0 <= k < node.children().len() && self.low_bits@.contains_key(
                (#[trigger] node.children()[k]).index,
            )
    }

    /// Decides whether an operand of the node at `id` is a rewritten 64-bit producer.
    pub fn any_low(&self, func: &LocalFunction, id: ExprId) -> (found: bool)
        requires
            func.valid(id),
            func.nodes()[id.index as int].children().len() <= usize::MAX,
        ensures
            found == self.carries_i64(func.nodes()[id.index as int]),
    {
        let node = func.get(id);
        let count = node.child_count();
        let mut k: usize = 0;
        while k < count
            invariant
                k <= count,
                count == node@.children().len(),
                node@ == func.nodes()[id.index as int],
                forall|j: int|
                    0 <= j < k ==> !self.low_bits@.contains_key(
                        (#[trigger] node@.children()[j]).index,
                    ),
            decreases count - k,
        {
            let child = node.child(k);
            if self.low_bits.get(&child.index).is_some() {
                return true;
            }
            k += 1;
        }
        false
    }

    /// Refuses the node at `id` with `reason` if an operand of it is a rewritten 64-bit
    /// producer or `typed` says that the node itself names a 64-bit integer, and leaves it
    /// alone otherwise.
    pub fn refuse_i64(
        &mut self,
        env: &Env,
        func: &LocalFunction,
        locals: &ModuleLocals,
        id: ExprId,
        typed: bool,
        reason: Unimplemented,
    ) -> (result: Result<Option<ExprId>, Error>)
        requires
            old(self).ready(env, func, locals@, id),
            typed == !lowered(env.scope(locals@), func.nodes()[id.index as int]),
        ensures
            final(self).left(old(self), env, func, func, locals@, locals@, id, result),
            result is Err <==> typed || old(self).carries_i64(func.nodes()[id.index as int]),
            result is Err ==> result == Err::<Option<ExprId>, Error>(Error::Unimplemented(reason)),
            result is Ok ==> result->Ok_0 is None,
            final(self).low_bits == old(self).low_bits,
            final(self).local_halves == old(self).local_halves,
    {
        assert(node_ok(func.nodes(), func.tag(), func.nodes()[id.index as int]));
        if typed || self.any_low(func, id) {
            Err(Error::Unimplemented(reason))
        } else {
            self.keep(env, func, locals, id)
        }
    }

    /// Rewrites a branch. A branch that carries one 64-bit value becomes
    ///
    /// ```text
    ///  (block
    ///      (local.set $tmp $expr)
    ///      (local.set $block_low (local.get $expr_low))
    ///      (br (local.get $tmp)))
    /// ```
    ///
    /// so that the low bits make their way into the low-bits local of the target block. A
    /// branch that carries a 64-bit value among several is refused, and so is one whose
    /// target has no low-bits local.
    pub fn visit_br(
        &mut self,
        env: &Env,
        func: &mut LocalFunction,
        locals: &mut ModuleLocals,
        id: ExprId,
    ) -> (result: Result<Option<ExprId>, Error>)
        requires
            old(self).ready(env, old(func), old(locals)@, id),
            old(func).nodes()[id.index as int] is Br,
        ensures
            final(self).left(
                old(self),
                env,
                final(func),
                old(func),
                final(locals)@,
                old(locals)@,
                id,
                result,
            ),
            ({
                let br = old(func).nodes()[id.index as int]->Br_0;
                let carries = old(self).carries_i64(old(func).nodes()[id.index as int]);
                &&& result == Err::<Option<ExprId>, Error>(
                    Error::Unimplemented(Unimplemented::Br),
                ) <==> carries && br.args.len() != 1
                &&& result == Err::<Option<ExprId>, Error>(
                    Error::Unimplemented(Unimplemented::MissingLowBits),
                ) <==> carries && br.args.len() == 1 && !old(self).low_bits@.contains_key(
                    br.block.id.index,
                )
                &&& result is Err ==> result == Err::<Option<ExprId>, Error>(
                    Error::Unimplemented(Unimplemented::Br),
                ) || result == Err::<Option<ExprId>, Error>(
                    Error::Unimplemented(Unimplemented::MissingLowBits),
                )
                &&& result is Ok ==> if carries {
                    old(self).shaped(
                        final(self),
                        old(func),
                        final(func),
                        old(locals)@,
                        final(locals)@,
                        id,
                        br_shape(
                            old(func).tag(),
                            old(func).nodes().len(),
                            old(locals)@.len(),
                            old(self).generate_names,
                            id,
                            br,
                            old(self).low_bits@[br.args[0].index],
                            old(self).low_bits@[br.block.id.index],
                        ),
                        result,
                    )
                } else {
                    old(self).kept(
                        final(self),
                        old(func),
                        final(func),
                        old(locals)@,
                        final(locals)@,
                        result,
                    )
                }
            }),
    {
        assert(node_ok(func.nodes(), func.tag(), func.nodes()[id.index as int]));
        if !self.any_low(func, id) {
            return self.keep(env, func, locals, id);
        }
        let (target, count, first) = match func.get(id) {
            Expr::Br(br) => (
                br.block,
                br.args.len(),
                if br.args.len() == 1 {
                    Some(br.args[0])
                } else {
                    None
                },
            ),
            _ => (BlockId { id }, 0, None),
        };
        let expr = match first {
            Some(e) => e,
            None => {
                return Err(Error::Unimplemented(Unimplemented::Br));
            },
        };
        assert(expr == func.nodes()[id.index as int].children()[0]);
        let low_bits = match self.low_bits.get(&expr.index) {
            Some(l) => *l,
            None => {
                return Err(Error::Unimplemented(Unimplemented::Br));
            },
        };
        let block_low = match self.low_bits.get(&target.id.index) {
            Some(l) => *l,
            None => {
                return Err(Error::Unimplemented(Unimplemented::MissingLowBits));
            },
        };
        self.touch(env, func, locals);
        let high_tmp = self.local(env, func, locals, "br_high");
        let set_high = self.emit(
            env,
            func,
            locals,
            Expr::LocalSet(LocalSet { local: high_tmp, value: expr }),
        );
        let get_low = self.emit(env, func, locals, Expr::LocalGet(LocalGet { local: low_bits }));
        let set_low = self.emit(
            env,
            func,
            locals,
            Expr::LocalSet(LocalSet { local: block_low, value: get_low }),
        );
        let get_high = self.emit(env, func, locals, Expr::LocalGet(LocalGet { local: high_tmp }));
        self.patch(env, func, locals, id, 0, get_high);
        assert(func.nodes()[id.index as int].children() =~= seq![get_high]);
        self.seal(env, func, locals, id, None);
        let block = self.emit(
            env,
            func,
            locals,
            Expr::Block(plain_block(types1(ValType::I32), exprs3(set_high, set_low, id))),
        );
        self.seal(env, func, locals, id, Some(block));
        proof {
            let out = block;
            let br = old(func).nodes()[id.index as int]->Br_0;
            assert(br.args =~= seq![expr]);
            assert(func.nodes()[id.index as int]->Br_0.args =~= seq![get_high]);
            old(self).lemma_shaped(
                self,
                old(func),
                func,
                old(locals)@,
                locals@,
                id,
                br_shape(
                    old(func).tag(),
                    old(func).nodes().len(),
                    old(locals)@.len(),
                    old(self).generate_names,
                    id,
                    br,
                    low_bits,
                    block_low,
                ),
                out,
            );
        }
        Ok(Some(block))
    }

    /// Makes the arm `arm` of a conditional, whose last expression leaves the high bits of
    /// a 64-bit value with its low bits in the local `low`, keep the high bits in
    /// `temp_high`, move the low bits to `low_local` and leave the high bits.
    pub fn join_arm(
        &self,
        env: &Env,
        func: &mut LocalFunction,
        locals: &ModuleLocals,
        arm: BlockId,
        low: LocalId,
        low_local: LocalId,
        temp_high: LocalId,
    )
        requires
            self.inv(env, old(func), locals@),
            self.changed,
            old(func).is_block(arm.id),
            old(func).block_at(arm).exprs.len() > 0,
            self.settled(env.scope(locals@), old(func).nodes(), arm.id.index as int),
            is_i32_local(locals@, low),
            is_i32_local(locals@, low_local),
            is_i32_local(locals@, temp_high),
        ensures
            self.inv(env, final(func), locals@),
            final(func).same_but_nodes(old(func)),
            self.follows(env, final(func), locals@, -1, self.snap(old(func), locals@)),
            forall|i: int|
                0 <= i < old(func).nodes().len() && old(func).nodes()[i] is Block ==> (
                #[trigger] final(func).nodes()[i]) is Block && final(func).nodes()[i]->Block_0.exprs.len()
                    >= old(func).nodes()[i]->Block_0.exprs.len(),
            forall|i: int|
                0 <= i < old(func).nodes().len() && i != arm.id.index ==> (
                #[trigger] final(func).nodes()[i]) == old(func).nodes()[i],
            final(func).nodes() == arm_joined(
                old(func).nodes(),
                old(func).tag(),
                arm.id,
                low,
                low_local,
                temp_high,
            ),
    {
        let found = func.block(arm);
        let last = found.exprs[found.exprs.len() - 1];
        proof {
            let nodes = func.nodes();
            assert(last == nodes[arm.id.index as int].children()[found@.exprs.len() - 1]);
            assert(node_ok(nodes, func.tag(), nodes[arm.id.index as int]));
        }
        let set_high = self.emit(
            env,
            func,
            locals,
            Expr::LocalSet(LocalSet { local: temp_high, value: last }),
        );
        let get_low = self.emit(env, func, locals, Expr::LocalGet(LocalGet { local: low }));
        let set_low = self.emit(
            env,
            func,
            locals,
            Expr::LocalSet(LocalSet { local: low_local, value: get_low }),
        );
        let get_high = self.emit(env, func, locals, Expr::LocalGet(LocalGet { local: temp_high }));
        self.retail_block(env, func, locals, arm, set_high, set_low, get_high);
    }

    /// Rewrites a conditional. Where its first arm is a block that was rewritten as a
    /// 64-bit producer, both arms are made to keep their high bits in one shared scratch
    /// local and to move their low bits to one shared local, which is recorded as the
    /// low-bits local of the conditional. Where the second arm was not rewritten so, or an
    /// arm is empty, the conditional is refused.
    pub fn visit_if_else(
        &mut self,
        env: &Env,
        func: &mut LocalFunction,
        locals: &mut ModuleLocals,
        id: ExprId,
        node: IfElse,
    ) -> (result: Result<Option<ExprId>, Error>)
        requires
            old(self).ready(env, old(func), old(locals)@, id),
            old(func).nodes()[id.index as int] == ExprView::IfElse(node),
        ensures
            final(self).left(
                old(self),
                env,
                final(func),
                old(func),
                final(locals)@,
                old(locals)@,
                id,
                result,
            ),
            ({
                let yields_i64 = old(self).low_bits@.contains_key(node.consequent.id.index);
                let both = old(self).low_bits@.contains_key(node.alternative.id.index);
                let empty = old(func).block_at(node.consequent).exprs.len() == 0
                    || old(func).block_at(node.alternative).exprs.len() == 0;
                &&& result == Err::<Option<ExprId>, Error>(
                    Error::Unimplemented(Unimplemented::MissingLowBits),
                ) <==> yields_i64 && !both
                &&& result == Err::<Option<ExprId>, Error>(
                    Error::Unimplemented(Unimplemented::EmptyBlock),
                ) <==> yields_i64 && both && empty
                &&& result is Err ==> result == Err::<Option<ExprId>, Error>(
                    Error::Unimplemented(Unimplemented::MissingLowBits),
                ) || result == Err::<Option<ExprId>, Error>(
                    Error::Unimplemented(Unimplemented::EmptyBlock),
                )
                &&& result is Ok ==> if yields_i64 {
                    let tag = old(func).tag();
                    let count = old(locals)@.len();
                    let names = old(self).generate_names;
                    &&& result == Ok::<Option<ExprId>, Error>(None)
                    &&& final(func).nodes() == arm_joined(
                        arm_joined(
                            old(func).nodes(),
                            tag,
                            node.consequent.id,
                            old(self).low_bits@[node.consequent.id.index],
                            local_at(count),
                            local_at(count + 1),
                        ),
                        tag,
                        node.alternative.id,
                        old(self).low_bits@[node.alternative.id.index],
                        local_at(count),
                        local_at(count + 1),
                    )
                    &&& final(locals)@ == old(locals)@.push(
                        temp(ValType::I32, names, "if_else_low"@, count),
                    ).push(temp(ValType::I32, names, "if_else_high"@, count + 1))
                    &&& final(self).low_bits@ == old(self).low_bits@.insert(
                        id.index,
                        local_at(count),
                    )
                    &&& final(self).local_halves@ == old(self).local_halves@
                } else {
                    old(self).kept(
                        final(self),
                        old(func),
                        final(func),
                        old(locals)@,
                        final(locals)@,
                        result,
                    )
                }
            }),
    {
        let ghost nodes = func.nodes();
        assert(node_ok(nodes, func.tag(), nodes[id.index as int]));
        assert(node.consequent.id == nodes[id.index as int].children()[1]);
        assert(node.alternative.id == nodes[id.index as int].children()[2]);
        let low_consequent = match self.low_bits.get(&node.consequent.id.index) {
            Some(l) => *l,
            None => {
                return self.keep(env, func, locals, id);
            },
        };
        let low_alternative = match self.low_bits.get(&node.alternative.id.index) {
            Some(l) => *l,
            None => {
                return Err(Error::Unimplemented(Unimplemented::MissingLowBits));
            },
        };
        if func.block(node.consequent).exprs.len() == 0 || func.block(
            node.alternative,
        ).exprs.len() == 0 {
            return Err(Error::Unimplemented(Unimplemented::EmptyBlock));
        }
        self.touch(env, func, locals);
        let low_local = self.local(env, func, locals, "if_else_low");
        let temp_high = self.local(env, func, locals, "if_else_high");
        self.join_arm(env, func, locals, node.consequent, low_consequent, low_local, temp_high);
        self.join_arm(env, func, locals, node.alternative, low_alternative, low_local, temp_high);
        self.low_bits.insert(id.index, low_local);
        assert(func.nodes()[id.index as int] == nodes[id.index as int]);
        self.seal(env, func, locals, id, None);
        Ok(None)
    }

    /// Whether a block has a single result that is a 64-bit integer.
    pub open spec fn yields_i64(block: BlockView) -> bool {
        block.results.len() == 1 && block.results[0] == ValType::I64
    }

    /// Prepares the visit of the operands of the node at `id`.
    ///
    /// If a block has a result type of i64 then our transformation means it'll actually
    /// have a result type of i32. Branches to the block must fill in its low bits, so the
    /// local for them is allocated up front, before the block's expressions are visited,
    /// and recorded as the low-bits local of the block. A block with several results, one of
    /// them a 64-bit integer, is refused.
    pub fn enter(
        &mut self,
        env: &Env,
        func: &LocalFunction,
        locals: &mut ModuleLocals,
        id: ExprId,
    ) -> (result: Result<(), Error>)
        requires
            old(self).inv(env, func, old(locals)@),
            func.valid(id),
            id.index < old(self).orig@.len(),
            old(self).marks@[id.index as int] is Active,
        ensures
            result is Ok ==> {
                &&& final(self).inv(env, func, final(locals)@)
                &&& final(self).follows(
                    env,
                    func,
                    final(locals)@,
                    -1,
                    old(self).snap(func, old(locals)@),
                )
                &&& final(self).marks == old(self).marks
                &&& final(self).same_phase(old(self))
            },
            !old(self).changed && lowered(env.scope(old(locals)@), func.nodes()[id.index as int])
                ==> result is Ok && !final(self).changed,
            result matches Err(e) ==> e is Unimplemented,
            match func.nodes()[id.index as int] {
                ExprView::Block(block) => {
                    &&& result is Err <==> mentions_i64(block.results) && block.results.len() > 1
                    &&& result is Err ==> result == Err::<(), Error>(
                        Error::Unimplemented(Unimplemented::MultiValueBlock),
                    )
                    &&& result is Ok ==> if Self::yields_i64(block) {
                        &&& final(self).low_bits@ == old(self).low_bits@.insert(
                            id.index,
                            LocalId { index: old(locals)@.len() as usize },
                        )
                        &&& final(locals)@ == old(locals)@.push(
                            LocalView {
                                ty: ValType::I32,
                                name: if old(self).generate_names {
                                    Some(numbered("block_low"@, old(locals)@.len()))
                                } else {
                                    None
                                },
                            },
                        )
                    } else {
                        &&& final(self).low_bits@ == old(self).low_bits@
                        &&& final(locals)@ == old(locals)@
                    }
                },
                _ => {
                    &&& result is Ok
                    &&& final(self).low_bits@ == old(self).low_bits@
                    &&& final(locals)@ == old(locals)@
                },
            },
    {
        let (is_block, single, any) = match func.get(id) {
            Expr::Block(block) => (
                true,
                block.results.len() == 1 && block.results[0] == ValType::I64,
                has_i64(&block.results),
            ),
            _ => (false, false, false),
        };
        if !any {
            return Ok(());
        }
        if !single {
            return Err(Error::Unimplemented(Unimplemented::MultiValueBlock));
        }
        self.touch(env, func, locals);
        let low_bits = self.local(env, func, locals, "block_low");
        self.low_bits.insert(id.index, low_bits);
        Ok(())
    }

    /// Finishes a block whose operands have been visited.
    ///
    /// A block with a single 64-bit result gets a 32-bit result. If its last expression is
    /// a rewritten 64-bit producer, the block is made to end in
    ///
    /// ```text
    ///      (local.set $temp ($high_bits))
    ///      (local.set $block_low (local.get $low_bits))
    ///      (local.get $temp))
    /// ```
    ///
    /// If the block doesn't actually end in a 64-bit expression, such as some unreachable
    /// value, then there won't be any low bits registered, and no dance is necessary.
    pub fn visit_block(
        &mut self,
        env: &Env,
        func: &mut LocalFunction,
        locals: &mut ModuleLocals,
        id: ExprId,
    ) -> (result: Result<Option<ExprId>, Error>)
        requires
            old(self).ready(env, old(func), old(locals)@, id),
            old(func).nodes()[id.index as int] is Block,
        ensures
            final(self).left(
                old(self),
                env,
                final(func),
                old(func),
                final(locals)@,
                old(locals)@,
                id,
                result,
            ),
            ({
                let block = old(func).nodes()[id.index as int]->Block_0;
                &&& result == Err::<Option<ExprId>, Error>(
                    Error::Unimplemented(Unimplemented::MultiValueBlock),
                ) <==> mentions_i64(block.results) && !Self::yields_i64(block)
                &&& result == Err::<Option<ExprId>, Error>(
                    Error::Unimplemented(Unimplemented::MissingLowBits),
                ) <==> Self::yields_i64(block) && !old(self).low_bits@.contains_key(id.index)
                &&& result == Err::<Option<ExprId>, Error>(
                    Error::Unimplemented(Unimplemented::EmptyBlock),
                ) <==> Self::yields_i64(block) && old(self).low_bits@.contains_key(id.index)
                    && block.exprs.len() == 0
                &&& result is Err ==> result == Err::<Option<ExprId>, Error>(
                    Error::Unimplemented(Unimplemented::MultiValueBlock),
                ) || result == Err::<Option<ExprId>, Error>(
                    Error::Unimplemented(Unimplemented::MissingLowBits),
                ) || result == Err::<Option<ExprId>, Error>(
                    Error::Unimplemented(Unimplemented::EmptyBlock),
                )
                &&& result is Ok ==> if Self::yields_i64(block) {
                    let count = old(locals)@.len();
                    let last = block.exprs.last().index;
                    &&& result == Ok::<Option<ExprId>, Error>(None)
                    &&& final(func).nodes() == block_finished(
                        old(func).nodes(),
                        old(func).tag(),
                        id,
                        if old(self).low_bits@.contains_key(last) {
                            Some(old(self).low_bits@[last])
                        } else {
                            None
                        },
                        old(self).low_bits@[id.index],
                        local_at(count),
                    )
                    &&& final(locals)@ == old(locals)@.push(
                        temp(ValType::I32, old(self).generate_names, "block_high"@, count),
                    )
                    &&& final(self).low_bits@ == old(self).low_bits@
                    &&& final(self).local_halves@ == old(self).local_halves@
                } else {
                    old(self).kept(
                        final(self),
                        old(func),
                        final(func),
                        old(locals)@,
                        final(locals)@,
                        result,
                    )
                }
            }),
    {
        let ghost nodes = func.nodes();
        assert(node_ok(nodes, func.tag(), nodes[id.index as int]));
        let found = func.block(BlockId { id });
        let single = found.results.len() == 1 && found.results[0] == ValType::I64;
        if !single {
            if has_i64(&found.results) {
                return Err(Error::Unimplemented(Unimplemented::MultiValueBlock));
            }
            return self.keep(env, func, locals, id);
        }
        let low_bits = match self.low_bits.get(&id.index) {
            Some(l) => *l,
            None => {
                return Err(Error::Unimplemented(Unimplemented::MissingLowBits));
            },
        };
        if found.exprs.len() == 0 {
            return Err(Error::Unimplemented(Unimplemented::EmptyBlock));
        }
        let last = found.exprs[found.exprs.len() - 1];
        assert(last == nodes[id.index as int].children()[found@.exprs.len() - 1]);
        self.touch(env, func, locals);
        self.retype_block(env, func, locals, id);
        let high_temp = self.local(env, func, locals, "block_high");
        match self.low_bits.get(&last.index) {
            Some(local) => {
                let local = *local;
                let get_low = self.emit(env, func, locals, Expr::LocalGet(LocalGet { local }));
                // Switch the last expression to `local.set $temp $expr`
                let set_high = self.emit(
                    env,
                    func,
                    locals,
                    Expr::LocalSet(LocalSet { local: high_temp, value: last }),
                );
                // Push `local.set $block_low (local.get $expr_low)`
                let set_low = self.emit(
                    env,
                    func,
                    locals,
                    Expr::LocalSet(LocalSet { local: low_bits, value: get_low }),
                );
                // Push `local.get $temp`
                let get_high = self.emit(
                    env,
                    func,
                    locals,
                    Expr::LocalGet(LocalGet { local: high_temp }),
                );
                self.retail_block(env, func, locals, BlockId { id }, set_high, set_low, get_high);
            },
            None => {},
        }
        proof {
            let after = func.nodes()[id.index as int];
            assert(after is Block);
            assert(after->Block_0.results =~= seq![ValType::I32]);
            assert forall|k: int| 0 <= k < after.children().len() implies self.settled(
                env.scope(locals@),
                func.nodes(),
                (#[trigger] after.children()[k]).index as int,
            ) by {
                if k < nodes[id.index as int].children().len() {
                    assert(after.children()[k].index >= self.orig@.len() || after.children()[k]
                        == nodes[id.index as int].children()[k]);
                }
            }
        }
        self.seal(env, func, locals, id, None);
        Ok(None)
    }

    /// Decides whether the signature `ty` takes or returns a 64-bit integer.
    pub fn type_has_i64(env: &Env, ty: TypeId) -> (yes: bool)
        ensures
            yes == type_mentions_i64(env.types@, ty),
    {
        if ty.index < env.types.len() {
            let found = env.types.get(ty);
            has_i64(found.params()) || has_i64(found.results())
        } else {
            false
        }
    }

    /// Decides whether the function `callee` took or returned a 64-bit integer before the
    /// analysis.
    pub fn callee_has_i64(env: &Env, callee: FunctionId) -> (yes: bool)
        ensures
            forall|locals: Seq<LocalView>| yes == #[trigger] callee_mentions_i64(
                env.scope(locals),
                callee,
            ),
    {
        match env.analysis.old_function_types.get(&callee.index) {
            Some(ty) => Self::type_has_i64(env, *ty),
            None => false,
        }
    }

    /// Whether rewriting `node` records a low-bits local for the node that stands for it
    /// afterwards: whether the second phase takes the node for a producer of a 64-bit value.
    pub open spec fn widens(&self, env: &Env, locals: Seq<LocalView>, node: ExprView) -> bool {
        match node {
            ExprView::Const(e) => e.value is I64,
            ExprView::GlobalGet(e) => env.analysis.globals@.contains_key(e.global.index),
            ExprView::LocalGet(e) => is_i64_local(locals, e.local),
            ExprView::LocalTee(e) => is_i64_local(locals, e.local),
            ExprView::Unop(e) => Self::rewrites_unop(e.op) && !(e.op is I64Eqz) && !(
            e.op is I32WrapI64),
            ExprView::Binop(e) => e.op.bitwise_half() is Some,
            ExprView::Load(e) => e.kind == (LoadKind::I64 { atomic: false }),
            ExprView::IfElse(e) => self.low_bits@.contains_key(e.consequent.id.index),
            _ => false,
        }
    }

    /// What rewriting `node`, at `id`, with the result `found`, does to the record of
    /// low-bits locals: nothing is taken from it, nothing is added but for the node that
    /// stands for `node` afterwards, and that node is in it exactly if it was or the phase
    /// takes `node` for a producer of a 64-bit value.
    pub open spec fn registers(
        &self,
        after: &RemoveI64,
        env: &Env,
        locals: Seq<LocalView>,
        id: ExprId,
        node: ExprView,
        found: Option<ExprId>,
    ) -> bool {
        let key = match found {
            Some(other) => other.index,
            None => id.index,
        };
        &&& forall|k: usize|
            self.low_bits@.contains_key(k) ==> #[trigger] after.low_bits@.contains_key(k)
        &&& forall|k: usize| #[trigger]
            after.low_bits@.contains_key(k) && !self.low_bits@.contains_key(k) ==> k == key
        &&& after.low_bits@.contains_key(key) <==> self.widens(env, locals, node)
            || self.low_bits@.contains_key(key)
    }

    /// Why the second phase refuses the node `node`, at `id`, whose operands have been
    /// visited, if it does.
    ///
    /// An operator, a memory access, a call or an atomic operation of 64-bit integers
    /// without a rewrite is refused as such. A node with a rewrite is refused where an
    /// operand that must be a rewritten 64-bit producer is none, where its offset leaves no
    /// room for a second word, or where a block that must end in a 64-bit value is empty. A
    /// node that passes its operands on is refused where one of them is a rewritten 64-bit
    /// producer.
    pub open spec fn refusal(
        &self,
        env: &Env,
        func: &LocalFunction,
        locals: Seq<LocalView>,
        id: ExprId,
        node: ExprView,
    ) -> Option<Unimplemented> {
        let low = |e: ExprId| self.low_bits@.contains_key(e.index);
        let carries = self.carries_i64(node);
        let refuse = |typed: bool, reason: Unimplemented|
            if typed || carries {
                Some(reason)
            } else {
                None
            };
        match node {
            ExprView::GlobalSet(e) => if env.analysis.globals@.contains_key(e.global.index) && !low(
                e.value,
            ) {
                Some(Unimplemented::MissingLowBits)
            } else {
                None
            },
            ExprView::LocalSet(e) => if is_i64_local(locals, e.local) && !low(e.value) {
                Some(Unimplemented::MissingLowBits)
            } else {
                None
            },
            ExprView::LocalTee(e) => if is_i64_local(locals, e.local) && !low(e.value) {
                Some(Unimplemented::MissingLowBits)
            } else {
                None
            },
            ExprView::Binop(e) => if e.op.bitwise_half() is Some {
                if !low(e.lhs) || !low(e.rhs) {
                    Some(Unimplemented::MissingLowBits)
                } else {
                    None
                }
            } else if e.op.touches_i64() {
                Some(Unimplemented::Binop)
            } else {
                None
            },
            ExprView::Unop(e) => if e.op.touches_i64() && !Self::rewrites_unop(e.op) {
                Some(Unimplemented::Unop)
            } else if Self::consumes_i64(e.op) && !low(e.expr) {
                Some(Unimplemented::MissingLowBits)
            } else {
                None
            },
            ExprView::Load(e) => if e.kind == (LoadKind::I64 { atomic: false }) {
                if e.arg.offset + 4 > u32::MAX {
                    Some(Unimplemented::MemoryOffset)
                } else {
                    None
                }
            } else if e.kind.touches_i64() {
                Some(Unimplemented::Load)
            } else {
                None
            },
            ExprView::Store(e) => if e.kind == (StoreKind::I64 { atomic: false }) {
                if e.arg.offset + 4 > u32::MAX {
                    Some(Unimplemented::MemoryOffset)
                } else if !low(e.value) {
                    Some(Unimplemented::MissingLowBits)
                } else {
                    None
                }
            } else if e.kind.touches_i64() {
                Some(Unimplemented::Store)
            } else {
                None
            },
            ExprView::Br(e) => if !carries {
                None
            } else if e.args.len() != 1 {
                Some(Unimplemented::Br)
            } else if !low(e.block.id) {
                Some(Unimplemented::MissingLowBits)
            } else {
                None
            },
            ExprView::IfElse(e) => if !low(e.consequent.id) {
                None
            } else if !low(e.alternative.id) {
                Some(Unimplemented::MissingLowBits)
            } else if func.block_at(e.consequent).exprs.len() == 0 || func.block_at(
                e.alternative,
            ).exprs.len() == 0 {
                Some(Unimplemented::EmptyBlock)
            } else {
                None
            },
            ExprView::Block(e) => if Self::yields_i64(e) {
                if !low(id) {
                    Some(Unimplemented::MissingLowBits)
                } else if e.exprs.len() == 0 {
                    Some(Unimplemented::EmptyBlock)
                } else {
                    None
                }
            } else if mentions_i64(e.results) {
                Some(Unimplemented::MultiValueBlock)
            } else {
                None
            },
            ExprView::Call(e) => refuse(
                callee_mentions_i64(env.scope(locals), e.func),
                Unimplemented::Call,
            ),
            ExprView::CallIndirect(e) => refuse(
                type_mentions_i64(env.types@, e.ty),
                Unimplemented::CallIndirect,
            ),
            ExprView::Select(_) => refuse(false, Unimplemented::Select),
            ExprView::Return(_) => refuse(false, Unimplemented::Return),
            ExprView::BrIf(_) => refuse(false, Unimplemented::BrIf),
            ExprView::BrTable(_) => refuse(false, Unimplemented::BrTable),
            ExprView::AtomicRmw(e) => refuse(e.width.touches_i64(), Unimplemented::Atomic),
            ExprView::Cmpxchg(e) => refuse(e.width.touches_i64(), Unimplemented::Atomic),
            ExprView::AtomicWait(_) => Some(Unimplemented::Atomic),
            _ => None,
        }
    }

    /// Rewrites the node at `id`, whose operands have been visited, by its kind.
    ///
    /// Literals, accesses to locals and globals, unary and binary operations, loads, stores,
    /// branches, conditionals and blocks have a rewrite of their own. A call, an indirect
    /// call, a `select`, a `return`, a conditional or table branch and an atomic operation
    /// are refused where an operand of theirs is a rewritten 64-bit producer or they name a
    /// 64-bit integer themselves. Every other node is left alone.
    #[verifier::rlimit(60)]
    pub fn leave(
        &mut self,
        env: &Env,
        func: &mut LocalFunction,
        locals: &mut ModuleLocals,
        id: ExprId,
    ) -> (result: Result<Option<ExprId>, Error>)
        requires
            old(self).ready(env, old(func), old(locals)@, id),
        ensures
            final(self).left(
                old(self),
                env,
                final(func),
                old(func),
                final(locals)@,
                old(locals)@,
                id,
                result,
            ),
            match old(self).refusal(
                env,
                old(func),
                old(locals)@,
                id,
                old(func).nodes()[id.index as int],
            ) {
                Some(reason) => result == Err::<Option<ExprId>, Error>(Error::Unimplemented(reason)),
                None => result is Ok,
            },
            result matches Ok(found) ==> old(self).registers(
                final(self),
                env,
                old(locals)@,
                id,
                old(func).nodes()[id.index as int],
                found,
            ),
            result is Ok ==> blocks_grow(old(func).nodes(), final(func).nodes()),
    {
        match func.get(id) {
            Expr::Const(node) => {
                let node = *node;
                self.visit_const(env, func, locals, id, node)
            },
            Expr::GlobalGet(node) => {
                let node = *node;
                self.visit_global_get(env, func, locals, id, node)
            },
            Expr::GlobalSet(node) => {
                let node = *node;
                self.visit_global_set(env, func, locals, id, node)
            },
            Expr::LocalGet(node) => {
                let node = *node;
                self.visit_local_get(env, func, locals, id, node)
            },
            Expr::LocalSet(node) => {
                let node = *node;
                self.visit_local_set(env, func, locals, id, node)
            },
            Expr::LocalTee(node) => {
                let node = *node;
                self.visit_local_tee(env, func, locals, id, node)
            },
            Expr::Binop(node) => {
                let node = *node;
                self.visit_binop(env, func, locals, id, node)
            },
            Expr::Unop(node) => {
                let node = *node;
                self.visit_unop(env, func, locals, id, node)
            },
            Expr::Load(node) => {
                let node = *node;
                self.visit_load(env, func, locals, id, node)
            },
            Expr::Store(node) => {
                let node = *node;
                self.visit_store(env, func, locals, id, node)
            },
            Expr::IfElse(node) => {
                let node = *node;
                self.visit_if_else(env, func, locals, id, node)
            },
            Expr::Br(_) => self.visit_br(env, func, locals, id),
            Expr::Block(_) => self.visit_block(env, func, locals, id),
            Expr::Call(call) => {
                let typed = Self::callee_has_i64(env, call.func);
                self.refuse_i64(env, func, locals, id, typed, Unimplemented::Call)
            },
            Expr::CallIndirect(call) => {
                let typed = Self::type_has_i64(env, call.ty);
                self.refuse_i64(env, func, locals, id, typed, Unimplemented::CallIndirect)
            },
            Expr::Select(_) => self.refuse_i64(env, func, locals, id, false, Unimplemented::Select),
            Expr::Return(_) => self.refuse_i64(env, func, locals, id, false, Unimplemented::Return),
            Expr::BrIf(_) => self.refuse_i64(env, func, locals, id, false, Unimplemented::BrIf),
            Expr::BrTable(_) => self.refuse_i64(
                env,
                func,
                locals,
                id,
                false,
                Unimplemented::BrTable,
            ),
            Expr::AtomicRmw(node) => {
                let typed = node.width.is_i64();
                self.refuse_i64(env, func, locals, id, typed, Unimplemented::Atomic)
            },
            Expr::Cmpxchg(node) => {
                let typed = node.width.is_i64();
                self.refuse_i64(env, func, locals, id, typed, Unimplemented::Atomic)
            },
            Expr::AtomicWait(_) => self.refuse_i64(
                env,
                func,
                locals,
                id,
                true,
                Unimplemented::Atomic,
            ),
            _ => self.keep(env, func, locals, id),
        }
    }

    /// Notes that the operands of the node at `id` are about to be visited.
    pub fn begin(&mut self, env: &Env, func: &LocalFunction, locals: &ModuleLocals, id: ExprId)
        requires
            old(self).inv(env, func, locals@),
            func.valid(id),
            id.index < old(self).orig@.len(),
            old(self).marks@[id.index as int] is Unseen,
        ensures
            final(self).inv(env, func, locals@),
            final(self).same_but_marks(old(self)),
            final(self).marks@ == old(self).marks@.update(id.index as int, Mark::Active),
            unseen(final(self).marks@) + 1 == unseen(old(self).marks@),
            final(self).follows(env, func, locals@, -1, old(self).snap(func, locals@)),
    {
        self.marks.set(id.index, Mark::Active);
        proof {
            lemma_unseen_update(old(self).marks@, id.index as int, Mark::Active);
            let scope = env.scope(locals@);
            let nodes = func.nodes();
            assert forall|i: int, k: int|
                0 <= i < nodes.len() && self.settled(scope, nodes, i) && 0 <= k
                    < nodes[i].children().len() implies self.settled(
                scope,
                nodes,
                (#[trigger] nodes[i].children()[k]).index as int,
            ) by {
                assert(old(self).settled(scope, nodes, i));
                assert(old(self).settled(scope, nodes, nodes[i].children()[k].index as int));
            }
        }
    }

    /// What a visit of the node at `id` promises where it succeeds with `found`: the
    /// invariant holds again; no node is less far than it was; the node is part of the
    /// rewritten body, or `found` is the node that takes its place.
    pub open spec fn visited(
        &self,
        before: &RemoveI64,
        env: &Env,
        func: &LocalFunction,
        func_before: &LocalFunction,
        locals: Seq<LocalView>,
        locals_before: Seq<LocalView>,
        id: ExprId,
        found: Option<ExprId>,
    ) -> bool {
        &&& self.inv(env, func, locals)
        &&& self.follows(env, func, locals, -1, before.snap(func_before, locals_before))
        &&& func.same_but_nodes(func_before)
        &&& self.same_phase(before)
        &&& unseen(self.marks@) <= unseen(before.marks@)
        &&& !(id.index < before.orig@.len() && before.marks@[id.index as int] is Active)
        &&& forall|i: int|
            0 <= i < self.marks@.len() && #[trigger] self.marks@[i] is Active
                ==> before.marks@[i] is Active
        &&& match found {
            None => self.settled(env.scope(locals), func.nodes(), id.index as int),
            Some(other) => func.valid(other) && other.index >= self.orig@.len() && !(
            func.nodes()[id.index as int] is Block),
        }
        &&& id.index < self.orig@.len() ==> self.marks@[id.index as int] == Mark::Done(found)
    }

    /// Whether the phase is in tune with the reading of the body that it started on: the
    /// body was acyclic and well-formed, the locals it had are in place, and the record of
    /// low-bits locals tells of every node what the reading tells.
    #[verifier::opaque]
    pub open spec fn hopeful(&self, env: &Env, func: &LocalFunction, locals: Seq<LocalView>) -> bool {
        &&& ranked(self.orig@, self.rank@)
        &&& nodes_ok(self.orig@, func.tag())
        &&& locals_in_range(self.orig@, self.locals0@.len())
        &&& self.locals0@.len() <= locals.len()
        &&& forall|i: int| 0 <= i < self.locals0@.len() ==> locals[i] == self.locals0@[i]
        &&& typed(
            env.scope(self.locals0@),
            self.orig@,
            self.marks@,
            self.low_bits@.dom(),
            func.nodes().len(),
        )
        &&& blocks_grow(self.orig@, func.nodes())
    }

    /// Whether the operand at position `j` of the node `now`, which the node `was` has
    /// become, stands for the operand of `was` at that position, with which the phase is done.
    pub open spec fn operand_done(&self, now: ExprView, was: ExprView, j: int) -> bool {
        let operand = was.children()[j].index as int;
        &&& 0 <= operand < self.orig@.len()
        &&& self.marks@[operand] is Done
        &&& now.children()[j].index == key_of(self.marks@[operand], operand)
    }

    /// Whether the first `k` operands of the node `now`, which the node `was` has become,
    /// stand for the first `k` operands of `was`, with which the phase is done.
    #[verifier::opaque]
    pub open spec fn operands_done(&self, now: ExprView, was: ExprView, k: int) -> bool {
        forall|j: int| 0 <= j < k ==> self.operand_done(now, was, j)
    }

    /// No operand is done before the first.
    pub proof fn lemma_no_operand_done(&self, now: ExprView, was: ExprView)
        ensures
            self.operands_done(now, was, 0),
    {
        reveal(RemoveI64::operands_done);
    }

    /// The operands that were done are done after a visit of the next operand, and so is
    /// that operand, for which `found` stands where it is replaced.
    pub proof fn lemma_operand_done(
        &self,
        after: &RemoveI64,
        now: ExprView,
        now_after: ExprView,
        was: ExprView,
        k: int,
        found: Option<ExprId>,
    )
        requires
            self.operands_done(now, was, k),
            after.orig == self.orig,
            self.marks@.len() == self.orig@.len(),
            after.marks@.len() == self.marks@.len(),
            forall|i: int|
                0 <= i < self.marks@.len() && #[trigger] self.marks@[i] is Done ==> after.marks@[i]
                    == self.marks@[i],
            0 <= k < was.children().len(),
            was.children()[k].index < self.orig@.len(),
            after.marks@[was.children()[k].index as int] == Mark::Done(found),
            now.children()[k] == was.children()[k],
            now_after == (match found {
                Some(other) => now.with_child(k, other),
                None => now,
            }),
            now_after.children() == (match found {
                Some(other) => now.children().update(k, other),
                None => now.children(),
            }),
            k < now.children().len(),
        ensures
            after.operands_done(now_after, was, k + 1),
    {
        reveal(RemoveI64::operands_done);
        assert forall|j: int| 0 <= j < k + 1 implies after.operand_done(now_after, was, j) by {
            let operand = was.children()[j].index as int;
            if j < k {
                assert(self.operand_done(now, was, j));
                assert(self.marks@[operand] is Done);
                assert(after.marks@[operand] == self.marks@[operand]);
                assert(now_after.children()[j] == now.children()[j]);
            } else {
                assert(after.marks@[operand] == Mark::Done(found));
                match found {
                    Some(other) => {
                        assert(now_after.children()[k] == other);
                    },
                    None => {
                        assert(now_after.children()[k] == was.children()[k]);
                    },
                }
            }
        }
    }

    /// The operands of a node of a body with which the phase is in tune are nodes of
    /// that body.
    pub proof fn lemma_hope_operand(
        &self,
        env: &Env,
        func: &LocalFunction,
        locals: Seq<LocalView>,
        id: ExprId,
        k: int,
    )
        requires
            self.hopeful(env, func, locals),
            id.index < self.orig@.len(),
            0 <= k < self.orig@[id.index as int].children().len(),
        ensures
            self.orig@[id.index as int].children()[k].index < self.orig@.len(),
            ranked(self.orig@, self.rank@),
    {
        reveal(RemoveI64::hopeful);
        assert(node_ok(self.orig@, func.tag(), self.orig@[id.index as int]));
    }

    /// The enclosing nodes of an operand of a node are being visited where those of the
    /// node were when its visit began, and the node is being visited.
    pub proof fn lemma_hope_climb(
        &self,
        env: &Env,
        func: &LocalFunction,
        locals: Seq<LocalView>,
        begun: Seq<Mark>,
        id: ExprId,
        k: int,
    )
        requires
            self.hopeful(env, func, locals),
            climbing(self.orig@, func.entry().id, begun, id),
            id.index < self.orig@.len(),
            0 <= k < self.orig@[id.index as int].children().len(),
            begun.len() == self.orig@.len(),
            self.marks@.len() == self.orig@.len(),
            forall|i: int|
                0 <= i < self.marks@.len() ==> (#[trigger] self.marks@[i] is Active
                    <==> begun[i] is Active || i == id.index),
        ensures
            climbing(
                self.orig@,
                func.entry().id,
                self.marks@,
                self.orig@[id.index as int].children()[k],
            ),
    {
        reveal(RemoveI64::hopeful);
        assert forall|t: int|
            0 <= t < self.orig@.len() && (#[trigger] begun[t] is Active || t == id.index)
                implies self.marks@[t] is Active by {
            assert(self.marks@[t] is Active <==> begun[t] is Active || t == id.index);
        }
        lemma_climb(self.orig@, func.tag(), func.entry().id, begun, self.marks@, id, k);
    }

    /// The target of a branch that carries a 64-bit value is being visited where the
    /// enclosing nodes of the branch were when its visit began.
    pub proof fn lemma_hope_target(
        &self,
        env: &Env,
        func: &LocalFunction,
        locals: Seq<LocalView>,
        begun: Seq<Mark>,
        id: ExprId,
    )
        requires
            self.hopeful(env, func, locals),
            climbing(self.orig@, func.entry().id, begun, id),
            supported(env.scope(self.locals0@), self.orig@, func.entry().id, id.index as int),
            id.index < self.orig@.len(),
            begun.len() == self.orig@.len(),
            self.marks@.len() == self.orig@.len(),
            forall|i: int|
                0 <= i < self.marks@.len() ==> (#[trigger] self.marks@[i] is Active
                    <==> begun[i] is Active || i == id.index),
        ensures
            target_entered(env.scope(self.locals0@), self.orig@, self.marks@, id),
    {
        let scope = env.scope(self.locals0@);
        lemma_target_entered(scope, self.orig@, func.entry().id, begun, id);
        if let ExprView::Br(e) = self.orig@[id.index as int] {
            if !narrow_operands(scope, self.orig@, self.orig@[id.index as int]) {
                let t = e.block.id.index as int;
                assert(self.marks@[t] is Active <==> begun[t] is Active || t == id.index);
            }
        }
    }

    /// The phase stays in tune with a body whose arena is as long as it was.
    pub proof fn lemma_hope_same_size(
        &self,
        env: &Env,
        func: &LocalFunction,
        func_after: &LocalFunction,
        locals: Seq<LocalView>,
    )
        requires
            self.hopeful(env, func, locals),
            func_after.nodes().len() == func.nodes().len(),
            func_after.tag() == func.tag(),
            blocks_grow(func.nodes(), func_after.nodes()),
        ensures
            self.hopeful(env, func_after, locals),
    {
        reveal(RemoveI64::hopeful);
    }

    /// Where the phase is in tune and done with the operands of a node, the operands are
    /// recorded as rewritten 64-bit producers exactly where they produce a 64-bit value.
    pub proof fn lemma_operands_recorded(
        &self,
        env: &Env,
        func: &LocalFunction,
        locals: Seq<LocalView>,
        now: ExprView,
        was: ExprView,
    )
        requires
            self.hopeful(env, func, locals),
            self.operands_done(now, was, was.children().len() as int),
        ensures
            operands_recorded(self, env.scope(self.locals0@), self.orig@, now, was),
    {
        reveal(RemoveI64::hopeful);
        reveal(RemoveI64::operands_done);
        let scope = env.scope(self.locals0@);
        assert forall|j: int| 0 <= j < was.children().len() implies (self.low_bits@.contains_key(
            (#[trigger] now.children()[j]).index,
        ) <==> wide(scope, self.orig@, was.children()[j].index as int)) by {
            assert(self.operand_done(now, was, j));
            let operand = was.children()[j].index as int;
            assert(typed_at(scope, self.orig@, self.marks@, self.low_bits@.dom(), operand));
        }
    }

    /// The phase stays in tune when a node that had not been reached starts being visited
    /// and, if it is a block of a single 64-bit result, is recorded.
    pub proof fn lemma_hope_entered(
        &self,
        after: &RemoveI64,
        env: &Env,
        func: &LocalFunction,
        locals: Seq<LocalView>,
        locals_after: Seq<LocalView>,
        id: ExprId,
    )
        requires
            self.hopeful(env, func, locals),
            id.index < self.orig@.len(),
            self.marks@[id.index as int] is Unseen,
            func.nodes()[id.index as int] == self.orig@[id.index as int],
            after.same_phase(self),
            after.marks@ == self.marks@.update(id.index as int, Mark::Active),
            after.low_bits@.dom() == (if self.orig@[id.index as int] matches ExprView::Block(b)
                && Self::yields_i64(b) {
                self.low_bits@.dom().insert(id.index)
            } else {
                self.low_bits@.dom()
            }),
            locals.len() <= locals_after.len(),
            forall|i: int| 0 <= i < locals.len() ==> locals_after[i] == locals[i],
        ensures
            after.hopeful(env, func, locals_after),
    {
        reveal(RemoveI64::hopeful);
        lemma_typed_entered(
            env.scope(self.locals0@),
            self.orig@,
            self.marks@,
            self.low_bits@.dom(),
            func.nodes().len(),
            id.index as int,
            after.low_bits@.dom(),
        );
    }

    /// The phase stays in tune when it is done with a node that it is sure to rewrite, and
    /// the node is not refused.
    pub proof fn lemma_hope_left(
        &self,
        after: &RemoveI64,
        env: &Env,
        func: &LocalFunction,
        func_after: &LocalFunction,
        locals: Seq<LocalView>,
        locals_after: Seq<LocalView>,
        id: ExprId,
        found: Option<ExprId>,
    )
        requires
            self.hopeful(env, func, locals),
            env.wf(),
            func.valid(id),
            id.index < self.orig@.len(),
            self.marks@[id.index as int] is Active,
            node_ok(func.nodes(), func.tag(), func.nodes()[id.index as int]),
            forall|i: int|
                0 <= i < self.orig@.len() ==> (#[trigger] func.nodes()[i] is Block
                    <==> self.orig@[i] is Block),
            agrees(func.nodes()[id.index as int], self.orig@[id.index as int]),
            self.operands_done(
                func.nodes()[id.index as int],
                self.orig@[id.index as int],
                self.orig@[id.index as int].children().len() as int,
            ),
            supported(env.scope(self.locals0@), self.orig@, func.entry().id, id.index as int),
            target_entered(env.scope(self.locals0@), self.orig@, self.marks@, id),
            func.nodes()[id.index as int] is Block ==> found is None,
            after.same_phase(self),
            after.marks@ == self.marks@.update(id.index as int, Mark::Done(found)),
            self.registers(after, env, locals, id, func.nodes()[id.index as int], found),
            func.nodes().len() <= func_after.nodes().len() <= usize::MAX,
            func_after.tag() == func.tag(),
            blocks_grow(func.nodes(), func_after.nodes()),
            found matches Some(other) ==> func.nodes().len() <= other.index
                < func_after.nodes().len(),
            locals.len() <= locals_after.len(),
            forall|i: int| 0 <= i < locals.len() ==> locals_after[i] == locals[i],
        ensures
            self.refusal(env, func, locals, id, func.nodes()[id.index as int]) is None,
            after.hopeful(env, func_after, locals_after),
    {
        reveal(RemoveI64::hopeful);
        let scope = env.scope(self.locals0@);
        let now = func.nodes()[id.index as int];
        let was = self.orig@[id.index as int];
        let low = self.low_bits@.dom();
        self.lemma_operands_recorded(env, func, locals, now, was);
        assert(typed_at(scope, self.orig@, self.marks@, low, id.index as int));
        lemma_form_children(now, was);
        assert(node_ok(self.orig@, func.tag(), was));
        assert(accessed_local(was) matches Some(l) ==> l.index < self.locals0@.len());
        if let ExprView::IfElse(e) = was {
            assert(e.consequent.id == was.children()[1]);
            assert(e.alternative.id == was.children()[2]);
            assert(is_block_at(self.orig@, func.tag(), e.consequent.id));
            assert(is_block_at(self.orig@, func.tag(), e.alternative.id));
        }
        if let ExprView::Br(e) = was {
            if !narrow_operands(scope, self.orig@, was) {
                assert(typed_at(
                    scope,
                    self.orig@,
                    self.marks@,
                    self.low_bits@.dom(),
                    e.block.id.index as int,
                ));
            }
        }
        lemma_supported_accepted(
            self,
            env,
            func,
            locals,
            scope,
            self.orig@,
            func.entry().id,
            id,
            now,
        );
        let key = key_of(Mark::Done(found), id.index as int);
        assert(after.low_bits@.dom().contains(key as usize) <==> wide(
            scope,
            self.orig@,
            id.index as int,
        )) by {
            if now is Block {
                assert(was is Block);
            }
        }
        lemma_typed_left(
            scope,
            self.orig@,
            self.marks@,
            low,
            func.nodes().len(),
            id.index as int,
            found,
            after.low_bits@.dom(),
            func_after.nodes().len(),
        );
    }

    /// Visits the node at `id`: its operands first, in the order in which they are
    /// evaluated, each replaced in the node by the node that takes its place, if any; then
    /// the node itself. Returns the node that takes the place of the node at `id`, if any.
    ///
    /// A node that was visited before is not visited again: what took its place then takes
    /// its place now. A node that is an operand of itself is refused.
    ///
    /// Where the phase is in tune with the reading of the body that it started on, and is
    /// sure to rewrite every node that the body reaches from `id`, the visit succeeds and
    /// leaves the phase in tune.
    #[verifier::rlimit(50)]
    pub fn visit_expr_id(
        &mut self,
        env: &Env,
        func: &mut LocalFunction,
        locals: &mut ModuleLocals,
        id: ExprId,
    ) -> (result: Result<Option<ExprId>, Error>)
        requires
            old(self).inv(env, old(func), old(locals)@),
            old(func).valid(id),
            ranked(old(self).orig@, old(self).rank@) ==> above(
                old(self).marks@,
                old(self).rank@,
                id,
            ),
        ensures
            !old(self).changed && body_lowered(env.scope(old(locals)@), old(func).nodes(), id)
                && ranked(old(func).nodes(), old(self).rank@) ==> result == Ok::<
                Option<ExprId>,
                Error,
            >(None) && !final(self).changed,
            result matches Ok(found) ==> final(self).visited(
                old(self),
                env,
                final(func),
                old(func),
                final(locals)@,
                old(locals)@,
                id,
                found,
            ),
            !old(self).changed && body_lowered(env.scope(old(locals)@), old(func).nodes(), id)
                ==> (result == Ok::<Option<ExprId>, Error>(None) && !final(self).changed)
                || result == Err::<Option<ExprId>, Error>(
                Error::Unimplemented(Unimplemented::Cycle),
            ),
            result matches Err(e) ==> e is Unimplemented,
            old(self).hopeful(env, old(func), old(locals)@) && body_supported(
                env.scope(old(self).locals0@),
                old(self).orig@,
                old(func).entry().id,
                id,
            ) && climbing(old(self).orig@, old(func).entry().id, old(self).marks@, id)
                ==> result is Ok && final(self).hopeful(env, final(func), final(locals)@),
        decreases unseen(old(self).marks@),
    {
        let ghost entry = func.entry().id;
        let ghost hope = self.hopeful(env, func, locals@) && body_supported(
            env.scope(self.locals0@),
            self.orig@,
            entry,
            id,
        ) && climbing(self.orig@, entry, self.marks@, id);
        let ghost scope0 = env.scope(self.locals0@);
        if id.index >= self.marks.len() {
            return Ok(None);
        }
        match self.marks[id.index] {
            Mark::Done(found) => {
                proof {
                    if !self.changed {
                        assert(found is None);
                    }
                }
                return Ok(found);
            },
            Mark::Active => {
                proof {
                    if hope {
                        reveal(RemoveI64::hopeful);
                        assert(ranked(self.orig@, self.rank@));
                        assert(false);
                    }
                }
                return Err(Error::Unimplemented(Unimplemented::Cycle));
            },
            Mark::Unseen => {},
        }
        let ghost calm = !self.changed && body_lowered(env.scope(locals@), func.nodes(), id);
        let ghost sorted = ranked(self.orig@, self.rank@);
        proof {
            if calm {
                lemma_body_lowered_root(env.scope(locals@), func.nodes(), id);
            }
            if hope {
                assert(reachable(self.orig@, id, id.index as int));
                assert(supported(scope0, self.orig@, entry, id.index as int));
            }
            assert(func.nodes()[id.index as int] == self.orig@[id.index as int]);
        }
        self.begin(env, func, locals, id);
        let ghost start = self.snap(func, locals@);
        let ghost begun = *self;
        self.enter(env, func, locals, id)?;
        let size = func.len();
        proof {
            if hope {
                assert(self.low_bits@.dom() =~= (if self.orig@[id.index as int] matches ExprView::Block(
                    b,
                ) && Self::yields_i64(b) {
                    old(self).low_bits@.dom().insert(id.index)
                } else {
                    old(self).low_bits@.dom()
                }));
                old(self).lemma_hope_entered(self, env, func, old(locals)@, locals@, id);
            }
            lemma_agrees_itself(self.orig@[id.index as int]);
            self.lemma_no_operand_done(func.nodes()[id.index as int], self.orig@[id.index as int]);
        }
        assert(node_ok(func.nodes(), func.tag(), func.nodes()[id.index as int]));
        let count = func.get(id).child_count();
        let mut k: usize = 0;
        while k < count
            invariant
                k <= count,
                self.inv(env, func, locals@),
                func.valid(id),
                id.index < self.orig@.len(),
                self.marks@[id.index as int] is Active,
                count == func.nodes()[id.index as int].children().len(),
                count == self.orig@[id.index as int].children().len(),
                forall|j: int|
                    0 <= j < k ==> self.settled(
                        env.scope(locals@),
                        func.nodes(),
                        (#[trigger] func.nodes()[id.index as int].children()[j]).index as int,
                    ),
                self.follows(env, func, locals@, id.index as int, start),
                self.follows(
                    env,
                    func,
                    locals@,
                    id.index as int,
                    old(self).snap(old(func), old(locals)@),
                ),
                unseen(self.marks@) < unseen(old(self).marks@),
                self.same_phase(old(self)),
                func.same_but_nodes(old(func)),
                old(self).marks@[id.index as int] is Unseen,
                calm ==> !self.changed && body_lowered(env.scope(locals@), func.nodes(), id),
                calm == (!old(self).changed && body_lowered(
                    env.scope(old(locals)@),
                    old(func).nodes(),
                    id,
                )),
                sorted == ranked(self.orig@, self.rank@),
                sorted ==> above(old(self).marks@, old(self).rank@, id),
                !self.changed ==> !old(self).changed && old(func).nodes() == self.orig@,
                forall|i: int|
                    0 <= i < self.marks@.len() ==> (#[trigger] self.marks@[i] is Active
                        <==> old(self).marks@[i] is Active || i == id.index),
                scope0 == env.scope(self.locals0@),
                entry == func.entry().id,
                hope == (old(self).hopeful(env, old(func), old(locals)@) && body_supported(
                    env.scope(old(self).locals0@),
                    old(self).orig@,
                    old(func).entry().id,
                    id,
                ) && climbing(old(self).orig@, old(func).entry().id, old(self).marks@, id)),
                hope ==> self.hopeful(env, func, locals@) && body_supported(
                    scope0,
                    self.orig@,
                    entry,
                    id,
                ),
                hope ==> supported(scope0, self.orig@, entry, id.index as int),
                hope ==> climbing(self.orig@, entry, old(self).marks@, id),
                self.marks@.len() == self.orig@.len(),
                agrees(func.nodes()[id.index as int], self.orig@[id.index as int]),
                forall|j: int|
                    k <= j < count ==> func.nodes()[id.index as int].children()[j]
                        == #[trigger] self.orig@[id.index as int].children()[j],
                hope ==> self.operands_done(
                    func.nodes()[id.index as int],
                    self.orig@[id.index as int],
                    k as int,
                ),
            decreases count - k,
        {
            let child = func.get(id).child(k);
            proof {
                assert(node_ok(func.nodes(), func.tag(), func.nodes()[id.index as int]));
                assert(child == self.orig@[id.index as int].children()[k as int]);
                if calm {
                    lemma_body_lowered_child(env.scope(locals@), func.nodes(), id, k as int);
                }
                if hope {
                    lemma_body_supported_child(scope0, self.orig@, entry, id, k as int);
                    self.lemma_hope_operand(env, func, locals@, id, k as int);
                    self.lemma_hope_climb(env, func, locals@, old(self).marks@, id, k as int);
                }
                if sorted {
                    assert(child.index < self.orig@.len() ==> self.rank@[child.index as int]
                        < self.rank@[id.index as int]);
                    assert forall|i: int|
                        0 <= i < self.marks@.len() && i < self.rank@.len()
                            && #[trigger] self.marks@[i] is Active && child.index
                            < self.rank@.len() implies self.rank@[i]
                        > self.rank@[child.index as int] by {
                        if i != id.index {
                            assert(old(self).marks@[i] is Active);
                        }
                    }
                }
            }
            let ghost was = func.nodes()[id.index as int];
            let ghost mid = self.snap(func, locals@);
            let ghost before_child = *self;
            let found = self.visit_expr_id(env, func, locals, child)?;
            assert(func.nodes()[id.index as int] == was);
            let ghost after_child = *self;
            proof {
                assert forall|j: int| 0 <= j < k implies self.settled(
                    env.scope(locals@),
                    func.nodes(),
                    (#[trigger] was.children()[j]).index as int,
                ) by {
                    assert(settled_at(env, self.orig@.len(), mid, was.children()[j].index as int));
                }
            }
            if let Some(other) = found {
                assert(self.changed);
                let ghost mid = self.snap(func, locals@);
                let ghost unpatched = *func;
                self.patch(env, func, locals, id, k, other);
                proof {
                    let now = func.nodes()[id.index as int];
                    lemma_agrees_patched(was, self.orig@[id.index as int], k as int, other);
                    if hope {
                        assert(blocks_grow(unpatched.nodes(), func.nodes())) by {
                            assert(func.nodes()[id.index as int].children().len()
                                == was.children().len());
                        }
                        self.lemma_hope_same_size(env, &unpatched, func, locals@);
                    }
                    assert forall|j: int| 0 <= j < k + 1 implies self.settled(
                        env.scope(locals@),
                        func.nodes(),
                        (#[trigger] now.children()[j]).index as int,
                    ) by {
                        if j < k {
                            assert(now.children()[j] == was.children()[j]);
                            assert(settled_at(
                                env,
                                self.orig@.len(),
                                mid,
                                was.children()[j].index as int,
                            ));
                        }
                    }
                }
            }
            proof {
                if hope {
                    before_child.lemma_operand_done(
                        self,
                        was,
                        func.nodes()[id.index as int],
                        self.orig@[id.index as int],
                        k as int,
                        found,
                    );
                }
            }
            k += 1;
        }
        let ghost last = self.marks@;
        let ghost before_leave = *self;
        let ghost func_before = *func;
        let ghost locals_before = locals@;
        let result = self.leave(env, func, locals, id);
        let size_after = func.len();
        proof {
            if let Ok(found) = result {
                lemma_unseen_update(last, id.index as int, Mark::Done(found));
            }
            if hope {
                before_leave.lemma_hope_target(
                    env,
                    &func_before,
                    locals_before,
                    old(self).marks@,
                    id,
                );
                if let Ok(found) = result {
                    assert(func_before.nodes()[id.index as int] is Block ==> found is None);
                    before_leave.lemma_hope_left(
                        self,
                        env,
                        &func_before,
                        func,
                        locals_before,
                        locals@,
                        id,
                        found,
                    );
                } else {
                    before_leave.lemma_hope_refused(env, &func_before, locals_before, id);
                }
            }
        }
        result
    }

    /// A node that the phase is sure to rewrite is not refused once the phase is in tune
    /// and done with its operands.
    pub proof fn lemma_hope_refused(
        &self,
        env: &Env,
        func: &LocalFunction,
        locals: Seq<LocalView>,
        id: ExprId,
    )
        requires
            self.hopeful(env, func, locals),
            env.wf(),
            func.valid(id),
            id.index < self.orig@.len(),
            self.marks@[id.index as int] is Active,
            node_ok(func.nodes(), func.tag(), func.nodes()[id.index as int]),
            agrees(func.nodes()[id.index as int], self.orig@[id.index as int]),
            self.operands_done(
                func.nodes()[id.index as int],
                self.orig@[id.index as int],
                self.orig@[id.index as int].children().len() as int,
            ),
            supported(env.scope(self.locals0@), self.orig@, func.entry().id, id.index as int),
            target_entered(env.scope(self.locals0@), self.orig@, self.marks@, id),
        ensures
            self.refusal(env, func, locals, id, func.nodes()[id.index as int]) is None,
    {
        reveal(RemoveI64::hopeful);
        let scope = env.scope(self.locals0@);
        let now = func.nodes()[id.index as int];
        let was = self.orig@[id.index as int];
        self.lemma_operands_recorded(env, func, locals, now, was);
        assert(typed_at(scope, self.orig@, self.marks@, self.low_bits@.dom(), id.index as int));
        lemma_form_children(now, was);
        assert(node_ok(self.orig@, func.tag(), was));
        assert(accessed_local(was) matches Some(l) ==> l.index < self.locals0@.len());
        if let ExprView::IfElse(e) = was {
            assert(e.consequent.id == was.children()[1]);
            assert(e.alternative.id == was.children()[2]);
            assert(is_block_at(self.orig@, func.tag(), e.consequent.id));
            assert(is_block_at(self.orig@, func.tag(), e.alternative.id));
        }
        if let ExprView::Br(e) = was {
            if !narrow_operands(scope, self.orig@, was) {
                assert(typed_at(
                    scope,
                    self.orig@,
                    self.marks@,
                    self.low_bits@.dom(),
                    e.block.id.index as int,
                ));
            }
        }
        lemma_supported_accepted(
            self,
            env,
            func,
            locals,
            scope,
            self.orig@,
            func.entry().id,
            id,
            now,
        );
    }

    /// The rewritten body is lowered: every node that the body reaches from the entry,
    /// once the entry is part of the rewritten body, is.
    pub proof fn lemma_lowered(&self, env: &Env, func: &LocalFunction, locals: Seq<LocalView>)
        requires
            self.inv(env, func, locals),
            self.settled(env.scope(locals), func.nodes(), func.entry().id.index as int),
        ensures
            body_lowered(env.scope(locals), func.nodes(), func.entry().id),
    {
        let scope = env.scope(locals);
        let nodes = func.nodes();
        let s = Set::new(|i: int| 0 <= i < nodes.len() && self.settled(scope, nodes, i));
        assert forall|i: int, k: int|
            0 <= i < nodes.len() && s.contains(i) && 0 <= k < nodes[i].children().len() implies s.contains(
            (#[trigger] nodes[i].children()[k]).index as int,
        ) by {
            assert(node_ok(nodes, func.tag(), nodes[i]));
            assert(valid_id(nodes, func.tag(), nodes[i].children()[k]));
            assert(self.settled(scope, nodes, nodes[i].children()[k].index as int));
        }
        lemma_every_reached_from_closed(
            nodes,
            func.entry().id,
            s,
            |e: ExprView| lowered(scope, e),
        );
    }

    /// How a rewritten function is left: where it returned a 64-bit value, through the
    /// global that is set aside for the low bits of results, and else through the entry
    /// that it had.
    pub open spec fn leaves(
        env: &Env,
        func_id: FunctionId,
        before: &LocalFunction,
        after: &LocalFunction,
    ) -> bool {
        if env.returns_i64(func_id) {
            env.low_result matches Some(global) && left_through(
                after.nodes(),
                after.tag(),
                before.entry().id,
                after.entry().id,
                global,
            )
        } else {
            after.entry() == before.entry()
        }
    }

    /// Runs the second phase on one function: fully deletes the i64 types.
    ///
    /// On success the body is well-formed again and every node that it reaches from its
    /// entry is lowered; its old nodes keep their places, and the table of locals has its
    /// old locals in place. A function that returned a 64-bit value is left through the
    /// global for the low bits of results; the phase fails where the entry of such a
    /// function has left no low bits. A body that reaches lowered nodes only, of a function
    /// that returned no 64-bit value, is left as it is, with the locals.
    pub fn run(
        env: &Env,
        func_id: FunctionId,
        memory: MemoryId,
        generate_names: bool,
        func: &mut LocalFunction,
        locals: &mut ModuleLocals,
    ) -> (result: Result<(), Error>)
        requires
            env.wf(),
            old(func).wf(),
            locals_in_range(old(func).nodes(), old(locals)@.len()),
            forall|k: usize| #[trigger]
                env.analysis.arguments@.contains_key(k) ==> is_i32_local(
                    old(locals)@,
                    env.analysis.arguments@[k].low,
                ) && is_i32_local(old(locals)@, env.analysis.arguments@[k].high),
        ensures
            result is Ok ==> {
                &&& final(func).wf()
                &&& locals_in_range(final(func).nodes(), final(locals)@.len())
                &&& final(func).same_but_body(old(func))
                &&& old(func).nodes().len() <= final(func).nodes().len()
                &&& old(locals)@.len() <= final(locals)@.len()
                &&& forall|i: int|
                    0 <= i < old(locals)@.len() ==> #[trigger] final(locals)@[i] == old(locals)@[i]
                &&& body_lowered(env.scope(final(locals)@), final(func).nodes(), final(func).entry().id)
                &&& Self::leaves(env, func_id, old(func), final(func))
            },
            body_lowered(env.scope(old(locals)@), old(func).nodes(), old(func).entry().id)
                && !env.returns_i64(func_id) ==> (result is Ok && final(func).nodes() == old(
                func,
            ).nodes() && final(locals)@ == old(locals)@) || result == Err::<(), Error>(
                Error::Unimplemented(Unimplemented::Cycle),
            ),
            result matches Err(e) ==> e is Unimplemented,
            body_lowered(env.scope(old(locals)@), old(func).nodes(), old(func).entry().id)
                && !env.returns_i64(func_id) && acyclic(old(func).nodes()) ==> result is Ok,
            body_supported(
                env.scope(old(locals)@),
                old(func).nodes(),
                old(func).entry().id,
                old(func).entry().id,
            ) && acyclic(old(func).nodes()) && (env.returns_i64(func_id) ==> Self::yields_i64(
                old(func).block_at(old(func).entry()),
            )) ==> result is Ok,
    {
        let size = func.len();
        let mut phase = RemoveI64 {
            func_id,
            marks: LowerI64::fresh_marks(func.len()),
            changed: false,
            low_bits: HashMap::new(),
            local_halves: HashMap::new(),
            memory,
            generate_names,
            orig: Ghost(func.nodes()),
            locals0: Ghost(locals@),
            rank: Ghost(ranking(func.nodes())),
        };
        let entry = func.entry_block();
        proof {
            if acyclic(func.nodes()) {
                reveal(RemoveI64::hopeful);
                let scope = env.scope(locals@);
                assert forall|i: int| 0 <= i < phase.orig@.len() implies #[trigger] typed_at(
                    scope,
                    phase.orig@,
                    phase.marks@,
                    phase.low_bits@.dom(),
                    i,
                ) by {}
                assert(phase.hopeful(env, func, locals@));
                lemma_climb_entry(phase.orig@, phase.rank@, entry.id, phase.marks@);
            }
        }
        let ghost sure = acyclic(func.nodes()) && body_supported(
            env.scope(locals@),
            func.nodes(),
            entry.id,
            entry.id,
        ) && Self::yields_i64(func.block_at(entry));
        let wide = env.result_is_i64(func_id);
        match phase.visit_expr_id(env, func, locals, entry.id) {
            Ok(_) => {
                if wide {
                    if let Some(global) = env.low_result {
                        match phase.low_bits.get(&entry.id.index) {
                            Some(low) => {
                                let low = *low;
                                assert(phase.low_bits@.contains_key(entry.id.index));
                                phase.exit_through(env, func, locals, global, low);
                            },
                            None => {
                                proof {
                                    if sure {
                                        reveal(RemoveI64::hopeful);
                                        assert(typed_at(
                                            env.scope(phase.locals0@),
                                            phase.orig@,
                                            phase.marks@,
                                            phase.low_bits@.dom(),
                                            entry.id.index as int,
                                        ));
                                    }
                                }
                                return Err(Error::Unimplemented(Unimplemented::MissingLowBits));
                            },
                        }
                    }
                }
                proof {
                    phase.lemma_lowered(env, func, locals@);
                }
                Ok(())
            },
            Err(e) => Err(e),
        }
    }
}

} // verus!
