//! Small constructors for the lists and blocks that rewrites build.

use vstd::prelude::*;
use crate::ir::node::{Block, BlockKind, BlockView, ExprId};
use crate::ty::ValType;

verus! {

/// The list of one expression.
pub fn exprs1(a: ExprId) -> (list: Vec<ExprId>)
    ensures
        list@ == seq![a],
{
    let mut list: Vec<ExprId> = Vec::new();
    list.push(a);
    assert(list@ =~= seq![a]);
    list
}

/// The list of two expressions.
pub fn exprs2(a: ExprId, b: ExprId) -> (list: Vec<ExprId>)
    ensures
        list@ == seq![a, b],
{
    let mut list: Vec<ExprId> = Vec::new();
    list.push(a);
    list.push(b);
    assert(list@ =~= seq![a, b]);
    list
}

/// The list of three expressions.
pub fn exprs3(a: ExprId, b: ExprId, c: ExprId) -> (list: Vec<ExprId>)
    ensures
        list@ == seq![a, b, c],
{
    let mut list: Vec<ExprId> = Vec::new();
    list.push(a);
    list.push(b);
    list.push(c);
    assert(list@ =~= seq![a, b, c]);
    list
}

/// The empty list of types.
pub fn types0() -> (list: Vec<ValType>)
    ensures
        list@ == Seq::<ValType>::empty(),
{
    let list: Vec<ValType> = Vec::new();
    assert(list@ =~= Seq::<ValType>::empty());
    list
}

/// The list of one type.
pub fn types1(ty: ValType) -> (list: Vec<ValType>)
    ensures
        list@ == seq![ty],
{
    let mut list: Vec<ValType> = Vec::new();
    list.push(ty);
    assert(list@ =~= seq![ty]);
    list
}

/// The mathematical value of a plain block: no parameters, the given results and
/// expressions.
pub open spec fn plain(results: Seq<ValType>, exprs: Seq<ExprId>) -> BlockView {
    BlockView { kind: BlockKind::Block, params: Seq::empty(), results, exprs }
}

/// A plain block: no parameters, the given results and expressions.
pub fn plain_block(results: Vec<ValType>, exprs: Vec<ExprId>) -> (block: Block)
    ensures
        block@ == plain(results@, exprs@),
{
    Block { kind: BlockKind::Block, params: types0(), results, exprs }
}

} // verus!
