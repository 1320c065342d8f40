//! Laws of the pass: what holds of every module on which it succeeds, and what it does to
//! a module that needs no lowering.

use vstd::prelude::*;
use crate::error::{Error, Unimplemented};
use crate::ir::node::{ExprView, FunctionId, GlobalId};
use crate::ir::reach::reachable;
use crate::module::Module;
use crate::module::exports::{ExportItem, exports_item};
use crate::module::functions::local_function::accessed_local;
use crate::passes::remove_i64::analysis::{
    function_fault, global_fault, globals_split, high_half, lemma_globals_split_shape, low_half,
    signature_of, signatures_of,
};
use crate::passes::remove_i64::facts::{
    lemma_signatures_split, lemma_split_globals_are_i32, lemma_split_no_global,
};
use crate::passes::remove_i64::outcome::{
    any_returns_i64, bodies_acyclic, faultless, function_lowered, function_rewritten, lowers,
    memory_ensured, module_lowered, module_supported, run_outcome, scope_of, unsplit, untouched,
};
use crate::passes::remove_i64::walk::{
    is_i64_global, is_i64_local, lowered, type_mentions_i64, type_returns_i64,
};
use crate::ty::{mentions_i64, ValType};

verus! {

/// After the pass, no export shows a 64-bit integer: the signature of an exported function
/// mentions none, and an exported global is no 64-bit global.
pub proof fn law_exports_show_no_i64(before: Module, after: Module)
    requires
        lowers(before, after),
    ensures
        forall|f: usize|
            f < after.funcs@.len() && #[trigger] exports_item(
                after.exports@,
                ExportItem::Function(FunctionId { index: f }),
            ) ==> !type_mentions_i64(after.types@, after.funcs@[f as int].type_id()),
        forall|g: usize|
            #[trigger] exports_item(after.exports@, ExportItem::Global(GlobalId { index: g }))
                ==> !is_i64_global(after.globals@, GlobalId { index: g }),
{
    assert forall|f: usize|
        f < after.funcs@.len() && #[trigger] exports_item(
            after.exports@,
            ExportItem::Function(FunctionId { index: f }),
        ) implies !type_mentions_i64(after.types@, after.funcs@[f as int].type_id()) by {
        assert(function_lowered(scope_of(after), after.funcs@[f as int]));
    }
}

/// After the pass, no local of a function is a 64-bit local: neither an argument nor a
/// local that a node of the body, reached from its entry, reads or writes.
pub proof fn law_locals_are_not_i64(before: Module, after: Module, i: int)
    requires
        lowers(before, after),
        0 <= i < after.funcs@.len(),
        after.funcs@[i].kind is Local,
    ensures
        ({
            let body = after.funcs@[i].kind->Local_0;
            &&& forall|k: int|
                0 <= k < body.arg_list().len() ==> !is_i64_local(
                    after.locals@,
                    #[trigger] body.arg_list()[k],
                )
            &&& forall|x: int|
                0 <= x < body.nodes().len() && #[trigger] reachable(
                    body.nodes(),
                    body.entry().id,
                    x,
                ) ==> (accessed_local(body.nodes()[x]) matches Some(l) ==> !is_i64_local(
                    after.locals@,
                    l,
                ))
        }),
{
    assert(function_lowered(scope_of(after), after.funcs@[i]));
    let body = after.funcs@[i].kind->Local_0;
    assert forall|x: int|
        0 <= x < body.nodes().len() && #[trigger] reachable(
            body.nodes(),
            body.entry().id,
            x,
        ) implies (accessed_local(body.nodes()[x]) matches Some(l) ==> !is_i64_local(
        after.locals@,
        l,
    )) by {
        assert(lowered(scope_of(after), body.nodes()[x]));
    }
}

/// After the pass, no node of a body, reached from its entry, reads or writes a 64-bit
/// global. The 64-bit globals that the module had are still in its table.
pub proof fn law_globals_are_not_i64(before: Module, after: Module, i: int)
    requires
        lowers(before, after),
        0 <= i < after.funcs@.len(),
        after.funcs@[i].kind is Local,
    ensures
        ({
            let body = after.funcs@[i].kind->Local_0;
            forall|x: int|
                0 <= x < body.nodes().len() && #[trigger] reachable(
                    body.nodes(),
                    body.entry().id,
                    x,
                ) ==> match body.nodes()[x] {
                    ExprView::GlobalGet(g) => !is_i64_global(after.globals@, g.global),
                    ExprView::GlobalSet(g) => !is_i64_global(after.globals@, g.global),
                    _ => true,
                }
        }),
{
    assert(function_lowered(scope_of(after), after.funcs@[i]));
    let body = after.funcs@[i].kind->Local_0;
    assert forall|x: int|
        0 <= x < body.nodes().len() && #[trigger] reachable(
            body.nodes(),
            body.entry().id,
            x,
        ) implies match body.nodes()[x] {
        ExprView::GlobalGet(g) => !is_i64_global(after.globals@, g.global),
        ExprView::GlobalSet(g) => !is_i64_global(after.globals@, g.global),
        _ => true,
    } by {
        assert(lowered(scope_of(after), body.nodes()[x]));
    }
}

/// After the pass, no node of a body, reached from its entry, has an operand or a result
/// that is a 64-bit integer: no literal is one, no unary or binary operator, load or store
/// is one of 64-bit integers, and no block declares one as a result.
pub proof fn law_expressions_are_not_i64(before: Module, after: Module, i: int)
    requires
        lowers(before, after),
        0 <= i < after.funcs@.len(),
        after.funcs@[i].kind is Local,
    ensures
        ({
            let body = after.funcs@[i].kind->Local_0;
            forall|x: int|
                0 <= x < body.nodes().len() && #[trigger] reachable(
                    body.nodes(),
                    body.entry().id,
                    x,
                ) ==> match body.nodes()[x] {
                    ExprView::Const(c) => !(c.value is I64),
                    ExprView::Unop(u) => !u.op.touches_i64(),
                    ExprView::Binop(b) => !b.op.touches_i64(),
                    ExprView::Load(l) => !l.kind.touches_i64(),
                    ExprView::Store(s) => !s.kind.touches_i64(),
                    ExprView::Block(b) => !mentions_i64(b.results),
                    _ => true,
                }
        }),
{
    assert(function_lowered(scope_of(after), after.funcs@[i]));
    let body = after.funcs@[i].kind->Local_0;
    assert forall|x: int|
        0 <= x < body.nodes().len() && #[trigger] reachable(
            body.nodes(),
            body.entry().id,
            x,
        ) implies match body.nodes()[x] {
        ExprView::Const(c) => !(c.value is I64),
        ExprView::Unop(u) => !u.op.touches_i64(),
        ExprView::Binop(b) => !b.op.touches_i64(),
        ExprView::Load(l) => !l.kind.touches_i64(),
        ExprView::Store(s) => !s.kind.touches_i64(),
        ExprView::Block(b) => !mentions_i64(b.results),
        _ => true,
    } by {
        assert(lowered(scope_of(after), body.nodes()[x]));
    }
}

/// The pass keeps the exports: the same names for the same entities, in the same order.
/// An exported function has the type it had, which is the signature it was, and an exported
/// global is the global it was.
pub proof fn law_exports_are_kept(before: Module, after: Module)
    requires
        before.wf(),
        before.funcs@.len() <= usize::MAX,
        after.locals@.len() <= usize::MAX,
        run_outcome(before, after, Ok(())),
    ensures
        after.exports@ == before.exports@,
        forall|f: usize|
            f < before.funcs@.len() && #[trigger] exports_item(
                before.exports@,
                ExportItem::Function(FunctionId { index: f }),
            ) ==> {
                let ty = before.funcs@[f as int].type_id();
                &&& after.funcs@[f as int].type_id() == ty
                &&& after.types@[ty.index as int] == before.types@[ty.index as int]
            },
        forall|g: usize|
            g < before.globals@.len() && #[trigger] exports_item(
                before.exports@,
                ExportItem::Global(GlobalId { index: g }),
            ) ==> after.globals@[g as int] == before.globals@[g as int],
{
    let n = before.funcs@.len() as int;
    lemma_globals_split_shape(before.globals@, before.globals@.len() as int);
    lemma_signatures_split(before.types@, signatures_of(before.funcs@), unsplit(before), n);
    assert forall|f: usize|
        f < before.funcs@.len() && #[trigger] exports_item(
            before.exports@,
            ExportItem::Function(FunctionId { index: f }),
        ) implies {
        let ty = before.funcs@[f as int].type_id();
        &&& after.funcs@[f as int].type_id() == ty
        &&& after.types@[ty.index as int] == before.types@[ty.index as int]
    } by {
        let i = f as int;
        assert(before.funcs@[i].ok(before.types@, before.locals@));
        assert(signatures_of(before.funcs@)[i] == signature_of(before.funcs@[i]));
        assert(function_fault(
            before.types@,
            signatures_of(before.funcs@),
            before.exports@,
            i,
        ) is None);
        assert(function_rewritten(before, after, i));
    }
}

/// No function of a module that is free of 64-bit integers as far as its functions reach
/// returns a 64-bit value.
pub proof fn lemma_lowered_returns_none(module: Module)
    requires
        module_lowered(module),
    ensures
        !any_returns_i64(module.types@, module.funcs@),
{
    assert forall|i: int| 0 <= i < module.funcs@.len() implies !type_returns_i64(
        module.types@,
        (#[trigger] module.funcs@[i]).type_id(),
    ) by {
        assert(function_lowered(scope_of(module), module.funcs@[i]));
        let ty = module.funcs@[i].type_id();
        if type_returns_i64(module.types@, ty) {
            assert(module.types@[ty.index as int].results[0] == ValType::I64);
            assert(module.types@[ty.index as int].mentions_i64());
        }
    }
}

/// On a module without 64-bit globals and free of 64-bit integers as far as its functions
/// reach, the pass leaves the bodies, the types, the locals, the globals and the exports as
/// they were. It succeeds unless an expression is part of itself, which is the one failure
/// that it can report then.
pub proof fn law_identity_without_i64(before: Module, after: Module, result: Result<(), Error>)
    requires
        before.wf(),
        before.globals@.len() <= usize::MAX,
        module_lowered(before),
        forall|g: usize| !#[trigger] is_i64_global(before.globals@, GlobalId { index: g }),
        run_outcome(before, after, result),
    ensures
        bodies_acyclic(before) ==> result is Ok,
        result is Ok || result == Err::<(), Error>(Error::Unimplemented(Unimplemented::Cycle)),
        result is Ok ==> untouched(before, after) && after.globals@ == before.globals@
            && after.exports@ == before.exports@,
{
    let globals = before.globals@;
    let size = globals.len() as int;
    assert forall|i: int| 0 <= i < size implies global_fault(globals, before.exports@, i) is None by {
        assert(!is_i64_global(globals, GlobalId { index: i as usize }));
    }
    assert forall|i: int| 0 <= i < before.funcs@.len() implies function_fault(
        before.types@,
        signatures_of(before.funcs@),
        before.exports@,
        i,
    ) is None by {
        assert(function_lowered(scope_of(before), before.funcs@[i]));
        assert(before.funcs@[i].ok(before.types@, before.locals@));
        assert(signatures_of(before.funcs@)[i] == signature_of(before.funcs@[i]));
    }
    assert(faultless(before));
    lemma_lowered_returns_none(before);
    if result is Ok {
        assert forall|i: int| 0 <= i < size implies (#[trigger] globals[i]).ty != ValType::I64 by {
            assert(global_fault(globals, before.exports@, i) is None);
            assert(!is_i64_global(globals, GlobalId { index: i as usize }));
        }
        lemma_split_no_global(globals, size);
    }
}

/// Running the pass on a module that it has lowered leaves the bodies, the types, the
/// locals, the memories and the exports as they are. The 64-bit globals, which the first
/// run left in the table, are split again. The second run succeeds unless an expression
/// is part of itself, which is the one failure that it can report then.
pub proof fn law_idempotent(
    before: Module,
    once: Module,
    twice: Module,
    result: Result<(), Error>,
)
    requires
        run_outcome(before, once, Ok(())),
        once.globals@.len() <= usize::MAX,
        run_outcome(once, twice, result),
    ensures
        bodies_acyclic(once) ==> result is Ok,
        result is Ok || result == Err::<(), Error>(Error::Unimplemented(Unimplemented::Cycle)),
        result is Ok ==> untouched(once, twice) && twice.exports@ == once.exports@
            && twice.memories@ == once.memories@ && twice.globals@ == globals_split(
            once.globals@,
            once.globals@.len() as int,
        ),
{
    let old_globals = before.globals@;
    let globals = once.globals@;
    let size = old_globals.len() as int;
    lemma_globals_split_shape(old_globals, size);
    lemma_split_globals_are_i32(old_globals, size);
    lemma_lowered_returns_none(once);
    assert forall|i: int| 0 <= i < globals.len() implies global_fault(globals, once.exports@, i) is None by {
        if i < size {
            assert(globals[i] == old_globals[i]);
            assert(global_fault(old_globals, before.exports@, i) is None);
        } else {
            assert(globals[i].ty == ValType::I32);
        }
    }
    assert forall|i: int| 0 <= i < once.funcs@.len() implies function_fault(
        once.types@,
        signatures_of(once.funcs@),
        once.exports@,
        i,
    ) is None by {
        assert(function_lowered(scope_of(once), once.funcs@[i]));
        assert(once.funcs@[i].ok(once.types@, once.locals@));
        assert(signatures_of(once.funcs@)[i] == signature_of(once.funcs@[i]));
    }
    assert(faultless(once));
    assert(memory_ensured(once.memories@) == once.memories@);
}

/// On a module without a refused use, in which no expression is part of itself and whose
/// bodies hold only forms that the pass is sure to rewrite, the pass succeeds, and the module
/// is lowered.
pub proof fn law_success_is_owed(before: Module, after: Module, result: Result<(), Error>)
    requires
        module_supported(before),
        faultless(before),
        bodies_acyclic(before),
        run_outcome(before, after, result),
    ensures
        result is Ok,
        lowers(before, after),
{
}

/// The two halves of a 64-bit integer determine it: the high half shifted back up, with the
/// low half read as unsigned below it, is the integer.
pub proof fn law_halves_recompose(value: i64)
    ensures
        ((high_half(value) as i64) << 32) | ((low_half(value) as u32) as i64) == value,
{
    assert((((value >> 32) as i32) as i64) << 32 | (((value as i32) as u32) as i64) == value)
        by (bit_vector);
}

} // verus!
