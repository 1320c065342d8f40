//! The expression arena of a function body, kept in an `id_arena::Arena`.
//!
//! Verus does not look inside the arena. What it holds is named by
//! [`arena_nodes`], the arena's own identity by [`arena_tag`], and each
//! operation on it is given a contract over those two names.

use vstd::prelude::*;
use id_arena::{Arena, ArenaBehavior, DefaultArenaBehavior};
use crate::ir::node::{Expr, ExprId};

verus! {

/// Declares `id_arena::DefaultArenaBehavior`, the second parameter of the arena's type.
/// Nothing is claimed of it.
#[verifier::external_type_specification]
#[verifier::external_body]
#[verifier::reject_recursive_types(T)]
pub struct ExDefaultArenaBehavior<T>(DefaultArenaBehavior<T>);

/// Declares `id_arena::Arena`, so that an arena can stand in a field and in signatures.
/// A value of it is opaque: what is known of one comes from the contracts below.
#[verifier::external_type_specification]
#[verifier::external_body]
#[verifier::reject_recursive_types(T)]
#[verifier::reject_recursive_types(A)]
pub struct ExArena<T, A>(Arena<T, A>);

/// The nodes that an arena holds, in the order in which they were allocated.
pub uninterp spec fn arena_nodes(arena: Arena<Expr>) -> Seq<Expr>;

/// The number that an arena stamps on every identifier it hands out.
pub uninterp spec fn arena_tag(arena: Arena<Expr>) -> u32;

/// Calls `Arena::new`. The new arena holds no node; nothing is claimed of its tag, which
/// comes from a counter of the process.
#[verifier::external_body]
pub(crate) fn arena_new() -> (arena: Arena<Expr>)
    ensures
        arena_nodes(arena).len() == 0,
{
    Arena::new()
}

/// Calls `Arena::next_id`: the identifier that the next allocation will return, which
/// carries the arena's tag and the number of nodes allocated so far.
#[verifier::external_body]
pub(crate) fn arena_next_id(arena: &Arena<Expr>) -> (id: ExprId)
    ensures
        id.arena == arena_tag(*arena),
        id.index == arena_nodes(*arena).len(),
{
    let id = arena.next_id();
    ExprId { arena: DefaultArenaBehavior::<Expr>::arena_id(id), index: id.index() }
}

/// Calls `Arena::alloc`. The node is appended, earlier nodes and the tag stay, and the
/// identifier returned carries the arena's tag and the position of the new node.
#[verifier::external_body]
pub(crate) fn arena_alloc(arena: &mut Arena<Expr>, node: Expr) -> (id: ExprId)
    ensures
        arena_nodes(*final(arena)) == arena_nodes(*old(arena)).push(node),
        arena_tag(*final(arena)) == arena_tag(*old(arena)),
        id.arena == arena_tag(*old(arena)),
        id.index == arena_nodes(*old(arena)).len(),
{
    let id = arena.alloc(node);
    ExprId { arena: DefaultArenaBehavior::<Expr>::arena_id(id), index: id.index() }
}

/// Indexes the arena (`Index::index`), which panics unless the identifier carries the
/// arena's tag and a position below its length: both are required. The result is the node
/// at that position.
#[verifier::external_body]
pub(crate) fn arena_index(arena: &Arena<Expr>, id: ExprId) -> (node: &Expr)
    requires
        id.arena == arena_tag(*arena),
        id.index < arena_nodes(*arena).len(),
    ensures
        *node == arena_nodes(*arena)[id.index as int],
{
    &arena[DefaultArenaBehavior::<Expr>::new_id(id.arena, id.index)]
}

/// Indexes the arena mutably (`IndexMut::index_mut`), under the same conditions. The
/// reference starts at the node at that position; when it is given up, that position holds
/// what was written through it, and nothing else has changed.
#[verifier::external_body]
pub(crate) fn arena_index_mut(arena: &mut Arena<Expr>, id: ExprId) -> (node: &mut Expr)
    requires
        id.arena == arena_tag(*old(arena)),
        id.index < arena_nodes(*old(arena)).len(),
    ensures
        *node == arena_nodes(*old(arena))[id.index as int],
        arena_nodes(*final(arena)) == arena_nodes(*old(arena)).update(
            id.index as int,
            *final(node),
        ),
        arena_tag(*final(arena)) == arena_tag(*old(arena)),
{
    &mut arena[DefaultArenaBehavior::<Expr>::new_id(id.arena, id.index)]
}

} // verus!
