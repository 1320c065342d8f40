//! Functions defined locally within a module.

use vstd::prelude::*;
use id_arena::Arena;
use crate::arena::{
    arena_alloc, arena_index, arena_index_mut, arena_new, arena_next_id, arena_nodes, arena_tag,
};
use crate::ir::node::{
    Binop, Block, BlockId, BlockKind, BlockView, Br, BrView, Const, Drop, Expr, ExprId, ExprView,
    GlobalGet, GlobalId, GlobalSet, IfElse, Load, LocalGet, LocalId, LocalSet, LocalTee, MemoryId,
    Select, Store, Unop,
};
use crate::ir::ops::{BinaryOp, LoadKind, MemArg, StoreKind, UnaryOp, Value};
use crate::ir::reach::{
    closed_under_children, lemma_child_reachable, lemma_root_reachable, lemma_trues_bound,
    lemma_trues_count_reach, lemma_trues_none, lemma_trues_set, reach_count, reachable, trues,
};
use crate::ty::{TypeId, ValType};

verus! {

/// Whether `id` names a node of an arena with the given tag and nodes.
pub open spec fn valid_id(nodes: Seq<ExprView>, tag: u32, id: ExprId) -> bool {
    id.arena == tag && id.index < nodes.len()
}

/// Whether `id` names a block of an arena with the given tag and nodes.
pub open spec fn is_block_at(nodes: Seq<ExprView>, tag: u32, id: ExprId) -> bool {
    valid_id(nodes, tag, id) && nodes[id.index as int] is Block
}

/// Whether every identifier that the node `e` stores names a node of the arena, and the
/// arms of a conditional are blocks.
pub open spec fn node_ok(nodes: Seq<ExprView>, tag: u32, e: ExprView) -> bool {
    &&& e.children().len() <= usize::MAX
    &&& forall|k: int| 0 <= k < e.children().len() ==> valid_id(nodes, tag, #[trigger] e.children()[k])
    &&& e matches ExprView::IfElse(c) ==> is_block_at(nodes, tag, c.consequent.id) && is_block_at(
        nodes,
        tag,
        c.alternative.id,
    )
}

/// Whether every node of the arena is [`node_ok`].
pub open spec fn nodes_ok(nodes: Seq<ExprView>, tag: u32) -> bool {
    forall|i: int| 0 <= i < nodes.len() ==> node_ok(nodes, tag, #[trigger] nodes[i])
}

/// The local that a node reads or writes, if it is a local access.
pub open spec fn accessed_local(e: ExprView) -> Option<LocalId> {
    match e {
        ExprView::LocalGet(g) => Some(g.local),
        ExprView::LocalSet(s) => Some(s.local),
        ExprView::LocalTee(t) => Some(t.local),
        _ => None,
    }
}

/// Whether every local that a node of the arena accesses is one of the first `count` locals.
pub open spec fn locals_in_range(nodes: Seq<ExprView>, count: nat) -> bool {
    forall|i: int|
        0 <= i < nodes.len() ==> (#[trigger] accessed_local(nodes[i]) matches Some(l) ==> l.index
            < count)
}

/// A function defined locally within the module.
#[derive(Debug)]
pub struct LocalFunction {
    /// This function's type.
    pub ty: TypeId,
    /// The arena that contains this function's expressions.
    exprs: Arena<Expr>,
    /// The locals that hold the arguments, in order.
    args: Vec<LocalId>,
    /// The entry block.
    entry: BlockId,
}

impl LocalFunction {
    /// The nodes of the function's arena, by position.
    pub closed spec fn nodes(&self) -> Seq<ExprView> {
        Seq::new(arena_nodes(self.exprs).len(), |i: int| arena_nodes(self.exprs)[i]@)
    }

    /// The tag that every identifier of this function's arena carries.
    pub closed spec fn tag(&self) -> u32 {
        arena_tag(self.exprs)
    }

    /// The function's type.
    pub closed spec fn type_id(&self) -> TypeId {
        self.ty
    }

    /// The entry block.
    pub closed spec fn entry(&self) -> BlockId {
        self.entry
    }

    /// The locals that hold the arguments, in order.
    pub closed spec fn arg_list(&self) -> Seq<LocalId> {
        self.args@
    }

    /// Whether `id` names a node of this function.
    pub open spec fn valid(&self, id: ExprId) -> bool {
        valid_id(self.nodes(), self.tag(), id)
    }

    /// Whether `id` names a block of this function.
    pub open spec fn is_block(&self, id: ExprId) -> bool {
        is_block_at(self.nodes(), self.tag(), id)
    }

    /// The block that `id` names.
    pub open spec fn block_at(&self, id: BlockId) -> BlockView
        recommends
            self.is_block(id.id),
    {
        self.nodes()[id.id.index as int]->Block_0
    }

    /// Well-formedness: the entry is a block, and every identifier stored in a node names a
    /// node of this function's own arena.
    pub open spec fn wf(&self) -> bool {
        &&& self.is_block(self.entry().id)
        &&& nodes_ok(self.nodes(), self.tag())
    }

    /// Whether `self` is `before` but for the nodes in its arena.
    pub open spec fn same_but_nodes(&self, before: &LocalFunction) -> bool {
        &&& self.tag() == before.tag()
        &&& self.entry() == before.entry()
        &&& self.arg_list() == before.arg_list()
        &&& self.type_id() == before.type_id()
    }

    /// Whether `self` is `before` but for the nodes in its arena and its entry.
    pub open spec fn same_but_body(&self, before: &LocalFunction) -> bool {
        &&& self.tag() == before.tag()
        &&& self.arg_list() == before.arg_list()
        &&& self.type_id() == before.type_id()
    }

    /// Whether `self` is `before` with `node` appended under the identifier `id`.
    pub open spec fn appended(&self, before: &LocalFunction, node: ExprView, id: ExprId) -> bool {
        &&& self.same_but_nodes(before)
        &&& self.nodes() == before.nodes().push(node)
        &&& id.arena == before.tag()
        &&& id.index == before.nodes().len()
    }

    /// Creates a function of the given type and arguments whose body is an empty entry block
    /// with the given result types.
    pub fn new(ty: TypeId, args: Vec<LocalId>, results: Vec<ValType>) -> (func: LocalFunction)
        ensures
            func.type_id() == ty,
            func.arg_list() == args@,
            func.nodes() == seq![
                ExprView::Block(
                    BlockView {
                        kind: BlockKind::FunctionEntry,
                        params: Seq::empty(),
                        results: results@,
                        exprs: Seq::empty(),
                    },
                ),
            ],
            func.entry() == (BlockId { id: ExprId { arena: func.tag(), index: 0 } }),
            func.wf(),
    {
        let mut exprs = arena_new();
        let entry = arena_alloc(
            &mut exprs,
            Expr::Block(
                Block {
                    kind: BlockKind::FunctionEntry,
                    params: Vec::new(),
                    results,
                    exprs: Vec::new(),
                },
            ),
        );
        let func = LocalFunction { ty, exprs, args, entry: BlockId { id: entry } };
        assert(func.nodes()[0].children() =~= Seq::empty());
        func
    }

    /// Allocates a new expression into this function's arena.
    pub fn alloc_expr(&mut self, node: Expr) -> (id: ExprId)
        ensures
            final(self).appended(old(self), node@, id),
    {
        let id = arena_alloc(&mut self.exprs, node);
        assert(self.nodes() =~= old(self).nodes().push(node@));
        id
    }

    /// Allocates a new block into this function's arena.
    pub fn alloc_block(&mut self, block: Block) -> (id: BlockId)
        ensures
            final(self).appended(old(self), ExprView::Block(block@), id.id),
    {
        BlockId { id: self.alloc_expr(Expr::Block(block)) }
    }

    /// The number of expressions in this function's arena.
    pub fn len(&self) -> (len: usize)
        ensures
            len == self.nodes().len(),
    {
        arena_next_id(&self.exprs).index
    }

    /// Whether `id` names an expression of this function.
    pub fn contains(&self, id: ExprId) -> (found: bool)
        ensures
            found == self.valid(id),
    {
        let next = arena_next_id(&self.exprs);
        id.arena == next.arena && id.index < next.index
    }

    /// The identifier that the next allocation will return.
    pub fn next_id(&self) -> (id: ExprId)
        ensures
            id.arena == self.tag(),
            id.index == self.nodes().len(),
    {
        arena_next_id(&self.exprs)
    }

    /// The expression that `id` names.
    pub fn get(&self, id: ExprId) -> (node: &Expr)
        requires
            self.valid(id),
        ensures
            node@ == self.nodes()[id.index as int],
    {
        arena_index(&self.exprs, id)
    }

    /// The expression that `id` names, to be changed in place.
    pub fn get_mut(&mut self, id: ExprId) -> (node: &mut Expr)
        requires
            old(self).valid(id),
        ensures
            node@ == old(self).nodes()[id.index as int],
            final(self).same_but_nodes(old(self)),
            final(self).nodes() == old(self).nodes().update(id.index as int, final(node)@),
    {
        arena_index_mut(&mut self.exprs, id)
    }

    /// Creates a literal.
    pub fn const_(&mut self, value: Value) -> (id: ExprId)
        ensures
            final(self).appended(old(self), ExprView::Const(Const { value }), id),
    {
        self.alloc_expr(Expr::Const(Const { value }))
    }

    /// Creates a read of a local.
    pub fn local_get(&mut self, local: LocalId) -> (id: ExprId)
        ensures
            final(self).appended(old(self), ExprView::LocalGet(LocalGet { local }), id),
    {
        self.alloc_expr(Expr::LocalGet(LocalGet { local }))
    }

    /// Creates a write of `value` to a local.
    pub fn local_set(&mut self, local: LocalId, value: ExprId) -> (id: ExprId)
        ensures
            final(self).appended(old(self), ExprView::LocalSet(LocalSet { local, value }), id),
    {
        self.alloc_expr(Expr::LocalSet(LocalSet { local, value }))
    }

    /// Creates a write of `value` to a local that also yields the value.
    pub fn local_tee(&mut self, local: LocalId, value: ExprId) -> (id: ExprId)
        ensures
            final(self).appended(old(self), ExprView::LocalTee(LocalTee { local, value }), id),
    {
        self.alloc_expr(Expr::LocalTee(LocalTee { local, value }))
    }

    /// Creates a read of a global.
    pub fn global_get(&mut self, global: GlobalId) -> (id: ExprId)
        ensures
            final(self).appended(old(self), ExprView::GlobalGet(GlobalGet { global }), id),
    {
        self.alloc_expr(Expr::GlobalGet(GlobalGet { global }))
    }

    /// Creates a write of `value` to a global.
    pub fn global_set(&mut self, global: GlobalId, value: ExprId) -> (id: ExprId)
        ensures
            final(self).appended(old(self), ExprView::GlobalSet(GlobalSet { global, value }), id),
    {
        self.alloc_expr(Expr::GlobalSet(GlobalSet { global, value }))
    }

    /// Creates a unary operation.
    pub fn unop(&mut self, op: UnaryOp, expr: ExprId) -> (id: ExprId)
        ensures
            final(self).appended(old(self), ExprView::Unop(Unop { op, expr }), id),
    {
        self.alloc_expr(Expr::Unop(Unop { op, expr }))
    }

    /// Creates a binary operation.
    pub fn binop(&mut self, op: BinaryOp, lhs: ExprId, rhs: ExprId) -> (id: ExprId)
        ensures
            final(self).appended(old(self), ExprView::Binop(Binop { op, lhs, rhs }), id),
    {
        self.alloc_expr(Expr::Binop(Binop { op, lhs, rhs }))
    }

    /// Creates a load from memory.
    pub fn load(&mut self, memory: MemoryId, kind: LoadKind, arg: MemArg, address: ExprId) -> (id:
        ExprId)
        ensures
            final(self).appended(
                old(self),
                ExprView::Load(Load { memory, kind, arg, address }),
                id,
            ),
    {
        self.alloc_expr(Expr::Load(Load { memory, kind, arg, address }))
    }

    /// Creates a store to memory.
    pub fn store(
        &mut self,
        memory: MemoryId,
        kind: StoreKind,
        arg: MemArg,
        address: ExprId,
        value: ExprId,
    ) -> (id: ExprId)
        ensures
            final(self).appended(
                old(self),
                ExprView::Store(Store { memory, kind, arg, address, value }),
                id,
            ),
    {
        self.alloc_expr(Expr::Store(Store { memory, kind, arg, address, value }))
    }

    /// Creates an expression that evaluates `expr` and discards its value.
    pub fn drop(&mut self, expr: ExprId) -> (id: ExprId)
        ensures
            final(self).appended(old(self), ExprView::Drop(Drop { expr }), id),
    {
        self.alloc_expr(Expr::Drop(Drop { expr }))
    }

    /// Creates a choice between two values.
    pub fn select(&mut self, condition: ExprId, consequent: ExprId, alternative: ExprId) -> (id:
        ExprId)
        ensures
            final(self).appended(
                old(self),
                ExprView::Select(Select { condition, consequent, alternative }),
                id,
            ),
    {
        self.alloc_expr(Expr::Select(Select { condition, consequent, alternative }))
    }

    /// Creates a conditional with two arms.
    pub fn if_else(&mut self, condition: ExprId, consequent: BlockId, alternative: BlockId) -> (id:
        ExprId)
        ensures
            final(self).appended(
                old(self),
                ExprView::IfElse(IfElse { condition, consequent, alternative }),
                id,
            ),
    {
        self.alloc_expr(Expr::IfElse(IfElse { condition, consequent, alternative }))
    }

    /// Creates a branch to `block` that carries `args`.
    pub fn br(&mut self, block: BlockId, args: Vec<ExprId>) -> (id: ExprId)
        ensures
            final(self).appended(old(self), ExprView::Br(BrView { block, args: args@ }), id),
    {
        self.alloc_expr(Expr::Br(Br { block, args }))
    }

    /// Creates a plain block, without parameters, of the given result types and expressions.
    pub fn plain_block(&mut self, results: Vec<ValType>, exprs: Vec<ExprId>) -> (id: BlockId)
        ensures
            final(self).appended(
                old(self),
                ExprView::Block(
                    BlockView {
                        kind: BlockKind::Block,
                        params: Seq::empty(),
                        results: results@,
                        exprs: exprs@,
                    },
                ),
                id.id,
            ),
    {
        self.alloc_block(Block { kind: BlockKind::Block, params: Vec::new(), results, exprs })
    }

    /// This function's type.
    pub fn ty(&self) -> (ty: TypeId)
        ensures
            ty == self.type_id(),
    {
        self.ty
    }

    /// Changes this function's type.
    pub fn set_ty(&mut self, ty: TypeId)
        ensures
            final(self).type_id() == ty,
            final(self).nodes() == old(self).nodes(),
            final(self).tag() == old(self).tag(),
            final(self).entry() == old(self).entry(),
            final(self).arg_list() == old(self).arg_list(),
    {
        self.ty = ty;
    }

    /// Get the id of this function's entry block.
    pub fn entry_block(&self) -> (entry: BlockId)
        ensures
            entry == self.entry(),
    {
        self.entry
    }

    /// Makes another block the entry of this function.
    pub fn set_entry_block(&mut self, entry: BlockId)
        requires
            old(self).is_block(entry.id),
        ensures
            final(self).entry() == entry,
            final(self).nodes() == old(self).nodes(),
            final(self).tag() == old(self).tag(),
            final(self).arg_list() == old(self).arg_list(),
            final(self).type_id() == old(self).type_id(),
    {
        self.entry = entry;
    }

    /// The locals that hold the arguments, in order.
    pub fn args(&self) -> (args: &Vec<LocalId>)
        ensures
            args@ == self.arg_list(),
    {
        &self.args
    }

    /// Replaces the locals that hold the arguments.
    pub fn set_args(&mut self, args: Vec<LocalId>)
        ensures
            final(self).arg_list() == args@,
            final(self).nodes() == old(self).nodes(),
            final(self).tag() == old(self).tag(),
            final(self).entry() == old(self).entry(),
            final(self).type_id() == old(self).type_id(),
    {
        self.args = args;
    }

    /// Get the block associated with the given id.
    pub fn block(&self, block: BlockId) -> (found: &Block)
        requires
            self.is_block(block.id),
        ensures
            found@ == self.block_at(block),
    {
        match self.get(block.id) {
            Expr::Block(b) => b,
            _ => vstd::pervasive::unreached(),
        }
    }

    /// Get the block associated with the given id, to be changed in place.
    pub fn block_mut(&mut self, block: BlockId) -> (found: &mut Block)
        requires
            old(self).is_block(block.id),
        ensures
            found@ == old(self).block_at(block),
            final(self).same_but_nodes(old(self)),
            final(self).nodes() == old(self).nodes().update(
                block.id.index as int,
                ExprView::Block(final(found)@),
            ),
    {
        match self.get_mut(block.id) {
            Expr::Block(b) => b,
            _ => vstd::pervasive::unreached(),
        }
    }

    /// Decides whether the node at position `i` is [`node_ok`].
    fn node_is_ok(&self, i: usize) -> (ok: bool)
        requires
            i < self.nodes().len(),
        ensures
            ok == node_ok(self.nodes(), self.tag(), self.nodes()[i as int]),
    {
        let next = self.next_id();
        let node = self.get(ExprId { arena: next.arena, index: i });
        if !node.operands_fit() {
            return false;
        }
        let count = node.child_count();
        let mut k: usize = 0;
        while k < count
            invariant
                k <= count,
                count == node@.children().len(),
                node@ == self.nodes()[i as int],
                forall|j: int|
                    0 <= j < k ==> valid_id(self.nodes(), self.tag(), #[trigger] node@.children()[j]),
            decreases count - k,
        {
            if !self.contains(node.child(k)) {
                return false;
            }
            k += 1;
        }
        match node {
            Expr::IfElse(e) => {
                assert(e.consequent.id == node@.children()[1]);
                assert(e.alternative.id == node@.children()[2]);
                let consequent = match self.get(e.consequent.id) {
                    Expr::Block(_) => true,
                    _ => false,
                };
                let alternative = match self.get(e.alternative.id) {
                    Expr::Block(_) => true,
                    _ => false,
                };
                consequent && alternative
            },
            _ => true,
        }
    }

    /// Decides whether the function is well-formed.
    pub fn is_well_formed(&self) -> (ok: bool)
        ensures
            ok == self.wf(),
    {
        if !self.contains(self.entry.id) {
            return false;
        }
        match self.get(self.entry.id) {
            Expr::Block(_) => {},
            _ => {
                return false;
            },
        }
        let count = self.len();
        let mut i: usize = 0;
        while i < count
            invariant
                i <= count,
                count == self.nodes().len(),
                forall|j: int|
                    0 <= j < i ==> node_ok(self.nodes(), self.tag(), #[trigger] self.nodes()[j]),
            decreases count - i,
        {
            if !self.node_is_ok(i) {
                return false;
            }
            i += 1;
        }
        true
    }

    /// Decides whether every local that the body accesses is one of the first `count`
    /// locals.
    pub fn locals_within(&self, count: usize) -> (ok: bool)
        ensures
            ok == locals_in_range(self.nodes(), count as nat),
    {
        let next = self.next_id();
        let len = self.len();
        let mut i: usize = 0;
        while i < len
            invariant
                i <= len,
                len == self.nodes().len(),
                next.arena == self.tag(),
                forall|j: int|
                    0 <= j < i ==> (#[trigger] accessed_local(self.nodes()[j]) matches Some(l)
                        ==> l.index < count),
            decreases len - i,
        {
            let local = match self.get(ExprId { arena: next.arena, index: i }) {
                Expr::LocalGet(e) => Some(e.local),
                Expr::LocalSet(e) => Some(e.local),
                Expr::LocalTee(e) => Some(e.local),
                _ => None,
            };
            assert(local == accessed_local(self.nodes()[i as int]));
            if let Some(l) = local {
                if l.index >= count {
                    return false;
                }
            }
            i += 1;
        }
        true
    }

    /// Is this function's body a constant expression: does its entry block hold literals
    /// only?
    pub fn is_const(&self) -> (yes: bool)
        requires
            self.wf(),
        ensures
            yes == forall|k: int|
                0 <= k < self.block_at(self.entry()).exprs.len() ==> self.nodes()[(
                #[trigger] self.block_at(self.entry()).exprs[k]).index as int] is Const,
    {
        let entry = self.block(self.entry);
        assert(node_ok(self.nodes(), self.tag(), self.nodes()[self.entry.id.index as int]));
        let mut k: usize = 0;
        while k < entry.exprs.len()
            invariant
                k <= entry@.exprs.len(),
                entry@ == self.block_at(self.entry()),
                self.wf(),
                self.entry == self.entry(),
                node_ok(self.nodes(), self.tag(), self.nodes()[self.entry.id.index as int]),
                forall|j: int|
                    0 <= j < k ==> self.nodes()[(#[trigger] entry@.exprs[j]).index as int] is Const,
            decreases entry@.exprs.len() - k,
        {
            let id = entry.exprs[k];
            assert(id == self.nodes()[self.entry.id.index as int].children()[k as int]);
            match self.get(id) {
                Expr::Const(_) => {},
                _ => {
                    return false;
                },
            }
            k += 1;
        }
        true
    }

    /// Get the size of this function, in number of expressions: how many expressions the
    /// body reaches from its entry block, the entry block itself among them.
    pub fn size(&self) -> (size: u64)
        requires
            self.wf(),
        ensures
            size == reach_count(self.nodes(), self.entry().id, self.nodes().len() as int),
    {
        let ghost nodes = self.nodes();
        let ghost root = self.entry().id;
        let tag = self.next_id().arena;
        let count = self.len();
        let mut seen: Vec<bool> = Vec::new();
        let mut i: usize = 0;
        while i < count
            invariant
                i <= count,
                seen@.len() == i,
                forall|j: int| 0 <= j < i ==> !seen@[j],
            decreases count - i,
        {
            seen.push(false);
            i += 1;
        }
        proof {
            lemma_trues_none(seen@, count as int);
        }
        let mut stack: Vec<ExprId> = Vec::new();
        stack.push(self.entry.id);
        let mut found: usize = 0;
        proof {
            lemma_root_reachable(nodes, root);
            assert(stack@[0] == root);
        }
        while stack.len() > 0
            invariant
                self.wf(),
                nodes == self.nodes(),
                root == self.entry().id,
                tag == self.tag(),
                count == nodes.len(),
                seen@.len() == count,
                found == trues(seen@, count as int),
                forall|j: int|
                    0 <= j < stack@.len() ==> valid_id(nodes, tag, #[trigger] stack@[j]) && reachable(
                        nodes,
                        root,
                        stack@[j].index as int,
                    ),
                forall|i: int| 0 <= i < count && seen@[i] ==> #[trigger] reachable(nodes, root, i),
                pending(seen@, stack@, root.index as int),
                forall|i: int, k: int|
                    0 <= i < count && seen@[i] && 0 <= k < nodes[i].children().len() ==> pending(
                        seen@,
                        stack@,
                        (#[trigger] nodes[i].children()[k]).index as int,
                    ),
            decreases count - found, stack@.len(),
        {
            let ghost before = stack@;
            let id = stack.pop().unwrap();
            assert(id == before[before.len() - 1]);
            proof {
                lemma_trues_bound(seen@, count as int);
            }
            if !seen[id.index] {
                proof {
                    lemma_trues_set(seen@, id.index as int, count as int);
                }
                let ghost unset = seen@;
                seen.set(id.index, true);
                proof {
                    lemma_trues_bound(seen@, count as int);
                }
                found += 1;
                assert(node_ok(nodes, tag, nodes[id.index as int]));
                proof {
                    assert forall|c: int| pending(unset, before, c) implies pending(
                        seen@,
                        stack@,
                        c,
                    ) by {
                        if !unset[c] && c != id.index {
                            let j = choose|j: int| 0 <= j < before.len() && before[j].index == c;
                            assert(stack@[j] == before[j]);
                        }
                    }
                }
                let node = self.get(id);
                let operands = node.child_count();
                let mut k: usize = 0;
                while k < operands
                    invariant
                        k <= operands,
                        self.wf(),
                        nodes == self.nodes(),
                        tag == self.tag(),
                        count == nodes.len(),
                        seen@.len() == count,
                        id.index < count,
                        seen@[id.index as int],
                        node@ == nodes[id.index as int],
                        operands == node@.children().len(),
                        node_ok(nodes, tag, node@),
                        reachable(nodes, root, id.index as int),
                        forall|j: int|
                            0 <= j < stack@.len() ==> valid_id(nodes, tag, #[trigger] stack@[j])
                                && reachable(nodes, root, stack@[j].index as int),
                        pending(seen@, stack@, root.index as int),
                        forall|i: int, j: int|
                            0 <= i < count && seen@[i] && i != id.index && 0 <= j
                                < nodes[i].children().len() ==> pending(
                                seen@,
                                stack@,
                                (#[trigger] nodes[i].children()[j]).index as int,
                            ),
                        forall|j: int|
                            0 <= j < k ==> pending(
                                seen@,
                                stack@,
                                (#[trigger] node@.children()[j]).index as int,
                            ),
                    decreases operands - k,
                {
                    let child = node.child(k);
                    let ghost earlier = stack@;
                    proof {
                        lemma_child_reachable(nodes, root, id.index as int, k as int);
                    }
                    stack.push(child);
                    proof {
                        assert(stack@[stack@.len() - 1] == child);
                        assert forall|c: int| pending(seen@, earlier, c) implies pending(
                            seen@,
                            stack@,
                            c,
                        ) by {
                            if !seen@[c] {
                                let j = choose|j: int|
                                    0 <= j < earlier.len() && earlier[j].index == c;
                                assert(stack@[j] == earlier[j]);
                            }
                        }
                        assert forall|j: int| 0 <= j < stack@.len() implies valid_id(
                            nodes,
                            tag,
                            #[trigger] stack@[j],
                        ) && reachable(nodes, root, stack@[j].index as int) by {
                            if j < earlier.len() {
                                assert(stack@[j] == earlier[j]);
                            }
                        }
                    }
                    k += 1;
                }
            } else {
                proof {
                    assert forall|c: int| pending(seen@, before, c) implies pending(
                        seen@,
                        stack@,
                        c,
                    ) by {
                        if !seen@[c] {
                            let j = choose|j: int| 0 <= j < before.len() && before[j].index == c;
                            assert(stack@[j] == before[j]);
                        }
                    }
                }
            }
        }
        proof {
            let s = Set::new(|i: int| 0 <= i < count && seen@[i]);
            assert forall|i: int, k: int|
                0 <= i < nodes.len() && s.contains(i) && 0 <= k < nodes[i].children().len() implies s.contains(
                (#[trigger] nodes[i].children()[k]).index as int,
            ) by {
                assert(node_ok(nodes, tag, nodes[i]));
                assert(valid_id(nodes, tag, nodes[i].children()[k]));
                assert(pending(seen@, stack@, nodes[i].children()[k].index as int));
            }
            assert(s.contains(root.index as int));
            assert(closed_under_children(nodes, s));
            assert forall|i: int| 0 <= i < count implies seen@[i] == reachable(nodes, root, i) by {
                if reachable(nodes, root, i) {
                    assert(s.contains(i));
                }
            }
            lemma_trues_count_reach(seen@, nodes, root, count as int);
        }
        found as u64
    }
}

/// Whether the node at position `c` has been reached or waits on the stack.
pub open spec fn pending(seen: Seq<bool>, stack: Seq<ExprId>, c: int) -> bool {
    (0 <= c < seen.len() && seen[c]) || exists|j: int|
        0 <= j < stack.len() && (#[trigger] stack[j]).index == c
}

} // verus!
