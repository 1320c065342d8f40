//! What the pass promises of a module: the statements that its contract is made of.

use vstd::prelude::*;
use crate::const_value::Const;
use crate::error::{Error, InvalidInput, Unimplemented};
use crate::ir::node::{GlobalId, LocalId};
use crate::ir::ops::Value;
use crate::module::Module;
use crate::module::exports::{ExportItem, exports_item};
use crate::module::functions::{Function, FunctionKind};
use crate::module::globals::{Global, GlobalKind};
use crate::module::memories::Memory;
use crate::passes::remove_i64::analysis::{
    first_function_fault, first_global_fault, globals_split, no_function_fault, no_global_fault,
    Replace, signatures_of, signatures_split, Split, split_args,
};
use crate::passes::remove_i64::lower::body_settled;
use crate::passes::remove_i64::remove::RemoveI64;
use crate::passes::remove_i64::shapes::left_through;
use crate::passes::remove_i64::support::body_supported;
use crate::passes::remove_i64::walk::{
    acyclic, body_lowered, is_i64_global, is_i64_local, Scope, type_mentions_i64, type_returns_i64,
};
use crate::ty::{TypeId, TypeView, ValType};

verus! {

/// The tables against which the bodies of a module are read.
pub open spec fn scope_of(module: Module) -> Scope {
    Scope {
        locals: module.locals@,
        globals: module.globals@,
        types: module.types@,
        callees: Map::new(
            |f: usize| f < module.funcs@.len(),
            |f: usize| module.funcs@[f as int].type_id(),
        ),
    }
}

/// Whether a function is free of 64-bit integers: its signature mentions none, and where
/// it is defined in the module, no argument of it is a 64-bit local and every node that its
/// body reaches from its entry is lowered.
pub open spec fn function_lowered(scope: Scope, func: Function) -> bool {
    &&& !type_mentions_i64(scope.types, func.type_id())
    &&& func.kind matches FunctionKind::Local(body) ==> {
        &&& body_lowered(scope, body.nodes(), body.entry().id)
        &&& forall|k: int|
            0 <= k < body.arg_list().len() ==> !is_i64_local(
                scope.locals,
                #[trigger] body.arg_list()[k],
            )
    }
}

/// Whether a module is free of 64-bit integers as far as its functions reach and its
/// exports show: every function is, and no exported global is a 64-bit global.
pub open spec fn module_lowered(module: Module) -> bool {
    &&& forall|i: int|
        0 <= i < module.funcs@.len() ==> function_lowered(
            scope_of(module),
            #[trigger] module.funcs@[i],
        )
    &&& forall|g: usize|
        #[trigger] exports_item(module.exports@, ExportItem::Global(GlobalId { index: g }))
            ==> !is_i64_global(module.globals@, GlobalId { index: g })
}

/// Whether `fault` is the first use of 64-bit integers in the module that the pass
/// refuses: among the globals, in table order, or, if none is faulty, among the functions.
pub open spec fn first_fault(module: Module, fault: InvalidInput) -> bool {
    ||| first_global_fault(module.globals@, module.exports@, module.globals@.len() as int, fault)
    ||| {
        &&& no_global_fault(module.globals@, module.exports@, module.globals@.len() as int)
        &&& first_function_fault(
            module.types@,
            signatures_of(module.funcs@),
            module.exports@,
            fault,
        )
    }
}

/// Whether the module holds no use of 64-bit integers that the pass refuses.
pub open spec fn faultless(module: Module) -> bool {
    &&& no_global_fault(module.globals@, module.exports@, module.globals@.len() as int)
    &&& no_function_fault(
        module.types@,
        signatures_of(module.funcs@),
        module.exports@,
        module.funcs@.len() as int,
    )
}

/// The memories of a module once the pass has made sure that there is one: the memories it
/// had, or a memory of its own, of one page, where it had none.
pub open spec fn memory_ensured(memories: Seq<Memory>) -> Seq<Memory> {
    if memories.len() == 0 {
        seq![Memory { shared: false, initial: 1, maximum: Some(1u32), import: None }]
    } else {
        memories
    }
}

/// Whether a function among `funcs` returns one 64-bit value.
pub open spec fn any_returns_i64(types: Seq<TypeView>, funcs: Seq<Function>) -> bool {
    exists|i: int| 0 <= i < funcs.len() && type_returns_i64(types, (#[trigger] funcs[i]).type_id())
}

/// The global that the pass sets aside for the low bits of results: a 32-bit global that
/// can be written and starts at zero.
pub open spec fn result_global() -> Global {
    Global {
        ty: ValType::I32,
        mutable: true,
        kind: GlobalKind::Local(Const::Value(Value::I32(0))),
    }
}

/// The globals of a module once its 64-bit globals are split: its old globals, then the
/// halves of each 64-bit global, and last, where a function returns a 64-bit value, the
/// global for the low bits of results.
pub open spec fn globals_lowered(module: Module) -> Seq<Global> {
    let split = globals_split(module.globals@, module.globals@.len() as int);
    if any_returns_i64(module.types@, module.funcs@) {
        split.push(result_global())
    } else {
        split
    }
}

/// The global in which the functions of the module that returned a 64-bit value leave the
/// low bits of their results, where there is such a function.
pub open spec fn low_result_of(module: Module) -> Option<GlobalId> {
    if any_returns_i64(module.types@, module.funcs@) {
        Some(
            GlobalId {
                index: globals_split(module.globals@, module.globals@.len() as int).len() as usize,
            },
        )
    } else {
        None
    }
}

/// The tables and records of the module before any signature is split.
pub open spec fn unsplit(module: Module) -> Split {
    Split {
        types: module.types@,
        locals: module.locals@,
        arguments: Map::<usize, Replace<LocalId>>::empty(),
        old_function_types: Map::<usize, TypeId>::empty(),
        old_types_to_new: Map::<usize, TypeId>::empty(),
    }
}

/// The tables and records of the module once the signatures of its first `n` functions are
/// split.
pub open spec fn split_upto(module: Module, n: int) -> Split {
    signatures_split(module.types@, signatures_of(module.funcs@), unsplit(module), n)
}

/// Whether `after` is the function `before` with another body and, perhaps, another entry:
/// the same kind of function, the same type and arguments, and a body in an arena that has
/// grown.
pub open spec fn same_interface(before: Function, after: Function) -> bool {
    match before.kind {
        FunctionKind::Import(_) => after == before,
        FunctionKind::Local(old_body) => {
            &&& after.kind matches FunctionKind::Local(new_body)
            &&& new_body.same_but_body(&old_body)
            &&& old_body.nodes().len() <= new_body.nodes().len()
        },
    }
}

/// Whether `after` is the function `before` with another body: the same kind of
/// function, the same type and arguments, and a body with the same entry in an arena that
/// has grown.
pub open spec fn same_signature(before: Function, after: Function) -> bool {
    match before.kind {
        FunctionKind::Import(_) => after == before,
        FunctionKind::Local(old_body) => {
            &&& after.kind matches FunctionKind::Local(new_body)
            &&& new_body.type_id() == old_body.type_id()
            &&& new_body.arg_list() == old_body.arg_list()
            &&& new_body.tag() == old_body.tag()
            &&& new_body.entry() == old_body.entry()
            &&& old_body.nodes().len() <= new_body.nodes().len()
        },
    }
}

/// Whether `after` is the function `before` itself, as far as a body can be read: the
/// same signature and the same nodes.
pub open spec fn same_function(before: Function, after: Function) -> bool {
    &&& same_signature(before, after)
    &&& before.kind matches FunctionKind::Local(old_body) ==> after.kind matches FunctionKind::Local(
        new_body,
    ) && new_body.nodes() == old_body.nodes()
}

/// Whether the function at position `i` of `after` is the one of `before` after the pass:
/// with its signature split where it mentions a 64-bit integer, and the same signature
/// otherwise, in an arena that has grown. Where it returned a 64-bit value it is left
/// through the global for the low bits of results, and else through the entry that it had.
pub open spec fn function_rewritten(before: Module, after: Module, i: int) -> bool {
    let old_func = before.funcs@[i];
    let new_func = after.funcs@[i];
    let ty = before.types@[old_func.type_id().index as int];
    if ty.mentions_i64() {
        &&& old_func.kind matches FunctionKind::Local(old_body)
        &&& new_func.kind matches FunctionKind::Local(new_body)
        &&& new_body.type_id() == (TypeId { index: split_upto(before, i).types.len() as usize })
        &&& new_body.arg_list() == split_args(
            old_body.arg_list(),
            ty.params,
            split_upto(before, i).locals.len(),
            ty.params.len() as int,
        )
        &&& new_body.tag() == old_body.tag()
        &&& old_body.nodes().len() <= new_body.nodes().len()
        &&& if ty.results == seq![ValType::I64] {
            low_result_of(before) matches Some(global) && left_through(
                new_body.nodes(),
                new_body.tag(),
                old_body.entry().id,
                new_body.entry().id,
                global,
            )
        } else {
            new_body.entry() == old_body.entry()
        }
    } else {
        same_signature(old_func, new_func)
    }
}

/// What the pass makes of a module on which it succeeds.
///
/// The module is well-formed and free of 64-bit integers as far as its functions reach.
/// Its exports and settings are as they were. Every 64-bit global is split, and where a
/// function returned a 64-bit value there is a global for the low bits of results. There
/// is a memory. The type table holds the old types and then the split signatures; the table of
/// locals holds the old locals, then the halves of split arguments, then the locals that
/// the rewriting created. Each function is rewritten.
pub open spec fn lowers(before: Module, after: Module) -> bool {
    let split = split_upto(before, before.funcs@.len() as int);
    &&& after.wf()
    &&& module_lowered(after)
    &&& after.exports@ == before.exports@
    &&& after.config == before.config
    &&& after.globals@ == globals_lowered(before)
    &&& after.memories@ == memory_ensured(before.memories@)
    &&& after.types@ == split.types
    &&& split.locals.len() <= after.locals@.len()
    &&& forall|k: int| 0 <= k < split.locals.len() ==> #[trigger] after.locals@[k] == split.locals[k]
    &&& after.funcs@.len() == before.funcs@.len()
    &&& forall|i: int| 0 <= i < before.funcs@.len() ==> #[trigger] function_rewritten(before, after, i)
}

/// Whether the pass has left the bodies, the types and the locals of the module as they
/// were.
pub open spec fn untouched(before: Module, after: Module) -> bool {
    &&& after.types@ == before.types@
    &&& after.locals@ == before.locals@
    &&& after.funcs@.len() == before.funcs@.len()
    &&& forall|i: int|
        0 <= i < before.funcs@.len() ==> same_function(before.funcs@[i], #[trigger] after.funcs@[i])
}

/// Whether no expression of the first `n` functions among `funcs` is part of itself.
pub open spec fn acyclic_upto(funcs: Seq<Function>, n: int) -> bool {
    forall|i: int|
        0 <= i < n ==> ((#[trigger] funcs[i]).kind matches FunctionKind::Local(body) ==> acyclic(
            body.nodes(),
        ))
}

/// Whether no expression of the module is part of itself.
pub open spec fn bodies_acyclic(module: Module) -> bool {
    acyclic_upto(module.funcs@, module.funcs@.len() as int)
}

/// Whether the pass is sure to rewrite the body of a function, read against `scope`: the
/// first phase leaves every node as it is that the body reaches from its entry, the
/// second phase is sure to rewrite every such node, and the entry yields a 64-bit value
/// where the function returns one.
pub open spec fn function_supported(scope: Scope, func: Function) -> bool {
    func.kind matches FunctionKind::Local(body) ==> {
        &&& body_settled(body.nodes(), body.entry().id)
        &&& body_supported(scope, body.nodes(), body.entry().id, body.entry().id)
        &&& type_returns_i64(scope.types, body.type_id()) ==> RemoveI64::yields_i64(
            body.block_at(body.entry()),
        )
    }
}

/// Whether the pass is sure to rewrite the body of every function of the module.
pub open spec fn module_supported(module: Module) -> bool {
    forall|i: int|
        0 <= i < module.funcs@.len() ==> function_supported(
            scope_of(module),
            #[trigger] module.funcs@[i],
        )
}

/// What the pass promises of a module, whatever its result.
///
/// It fails with [`Error::InvalidInput`] exactly on a module that uses 64-bit integers in
/// a way it refuses, and names the first such use. It fails with [`Error::Unimplemented`]
/// only on a module without such a use. Where it succeeds, the module had no such use and
/// is now as [`lowers`] describes. On a module that is free of 64-bit integers already, as
/// far as its functions reach, and without a refused use, it succeeds and leaves the bodies,
/// the types and the locals as they were, unless an expression is part of itself. On a module
/// without a refused use in which no expression is part of itself, and whose bodies hold
/// only forms that the pass is sure to rewrite, it succeeds.
pub open spec fn run_outcome(before: Module, after: Module, result: Result<(), Error>) -> bool {
    &&& match result {
        Ok(()) => faultless(before) && lowers(before, after),
        Err(Error::InvalidInput(fault)) => first_fault(before, fault),
        Err(Error::Unimplemented(_)) => faultless(before),
    }
    &&& module_lowered(before) && faultless(before) ==> (result is Ok && untouched(before, after))
        || (result == Err::<(), Error>(Error::Unimplemented(Unimplemented::Cycle))
        && !bodies_acyclic(before))
    &&& module_supported(before) && faultless(before) && bodies_acyclic(before) ==> result is Ok
}

} // verus!
