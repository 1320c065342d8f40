//! The lowering of 64-bit integers to pairs of 32-bit integers.

pub mod analysis;
pub mod facts;
pub mod laws;
pub mod lower;
pub mod names;
pub mod outcome;
pub mod remove;
pub mod shapes;
pub mod support;
pub mod walk;

use vstd::prelude::*;
use crate::const_value::Const;
use crate::error::{Error, Unimplemented};
use crate::ir::node::{ExprId, ExprView, FunctionId, GlobalId, MemoryId};
use crate::ir::ops::Value;
use crate::module::Module;
use crate::module::exports::{ExportItem, exports_item};
use crate::module::functions::{Function, FunctionKind, ModuleFunctions};
use crate::module::functions::local_function::{accessed_local, LocalFunction, locals_in_range};
use crate::module::locals::{LocalView, ModuleLocals};
use crate::module::types::ModuleTypes;
use crate::passes::remove_i64::analysis::{
    Analysis, fresh_locals, function_fault, functions_split, global_fault, global_halves,
    globals_split, i64_count, no_function_fault, signature_of, signatures_of, signatures_ok,
    split_type,
};
use crate::passes::remove_i64::facts::{
    fresh_i32, lemma_globals_recorded, lemma_pairs_stay_i32, lemma_signatures_split,
    lemma_split_args_match, lemma_split_nothing, lemma_split_prefix, lemma_split_type,
    lemma_split_types_free, pairs_are_i32,
};
use crate::passes::remove_i64::lower::{body_settled, LowerI64};
use crate::passes::remove_i64::outcome::{
    acyclic_upto, any_returns_i64, bodies_acyclic, faultless, function_lowered, function_rewritten,
    function_supported, globals_lowered, low_result_of, lowers, memory_ensured, module_lowered,
    module_supported, run_outcome, same_function, same_interface, scope_of, split_upto, unsplit,
    untouched,
};
use crate::passes::remove_i64::remove::{Env, RemoveI64};
use crate::passes::remove_i64::support::{
    body_supported, lemma_body_supported_rescoped, same_reading,
};
use crate::passes::remove_i64::walk::{
    acyclic, body_lowered, callee_mentions_i64, is_i64_global, is_i64_local, lemma_body_rescoped,
    lemma_lowered_is_plain, lowered, type_mentions_i64, type_returns_i64,
};
use crate::ty::{TypeView, ValType};

verus! {

/// A well-formed function stays well-formed when locals are added.
pub proof fn lemma_ok_more_locals(
    func: Function,
    types: Seq<TypeView>,
    before: Seq<LocalView>,
    after: Seq<LocalView>,
)
    requires
        func.ok(types, before),
        before.len() <= after.len(),
        forall|k: int| 0 <= k < before.len() ==> after[k] == before[k],
    ensures
        func.ok(types, after),
{
}

/// A lowered body stays lowered when locals are added.
pub proof fn lemma_lowered_more_locals(
    env: &Env,
    nodes: Seq<ExprView>,
    root: ExprId,
    before: Seq<LocalView>,
    after: Seq<LocalView>,
)
    requires
        body_lowered(env.scope(before), nodes, root),
        locals_in_range(nodes, before.len()),
        before.len() <= after.len(),
        forall|k: int| 0 <= k < before.len() ==> after[k] == before[k],
    ensures
        body_lowered(env.scope(after), nodes, root),
{
    assert forall|i: int| 0 <= i < nodes.len() && lowered(env.scope(before), nodes[i]) implies lowered(
        env.scope(after),
        #[trigger] nodes[i],
    ) by {
        assert(accessed_local(nodes[i]) matches Some(l)
            ==> l.index < before.len());
    }
    lemma_body_rescoped(env.scope(before), env.scope(after), nodes, root);
}

/// Whether every body among `funcs` is lowered against the tables of `env` and `locals`.
pub open spec fn bodies_lowered(env: &Env, funcs: Seq<Function>, locals: Seq<LocalView>, n: int) -> bool {
    forall|i: int|
        0 <= i < n ==> ((#[trigger] funcs[i]).kind matches FunctionKind::Local(body)
            ==> body_lowered(env.scope(locals), body.nodes(), body.entry().id))
}

/// Whether the two phases are sure to rewrite every body among the first `n` of `funcs`,
/// read against the tables of `env` and `locals`, and the entry of each function that
/// returned a 64-bit value yields one.
pub open spec fn bodies_supported(env: &Env, funcs: Seq<Function>, locals: Seq<LocalView>, n: int) -> bool {
    forall|i: int|
        0 <= i < n ==> ((#[trigger] funcs[i]).kind matches FunctionKind::Local(body)
            ==> body_settled(body.nodes(), body.entry().id) && body_supported(
            env.scope(locals),
            body.nodes(),
            body.entry().id,
            body.entry().id,
        ) && (env.returns_i64(FunctionId { index: i as usize }) ==> RemoveI64::yields_i64(
            body.block_at(body.entry()),
        )))
}

/// Whether none of the first `n` functions returned a 64-bit value before the analysis.
pub open spec fn none_returns_i64(env: &Env, n: int) -> bool {
    forall|i: int| 0 <= i < n ==> !#[trigger] env.returns_i64(FunctionId { index: i as usize })
}

/// Whether the function `after`, at position `i`, is left as the rewriting of `before`
/// must be: through the global for the low bits of results where it returned a 64-bit
/// value, and else through the entry of `before`.
pub open spec fn left(env: &Env, i: int, before: Function, after: Function) -> bool {
    before.kind matches FunctionKind::Local(old_body) ==> after.kind matches FunctionKind::Local(
        new_body,
    ) && RemoveI64::leaves(env, FunctionId { index: i as usize }, &old_body, &new_body)
}

/// Decides whether a function among `funcs` returns one 64-bit value.
pub fn any_result_i64(types: &ModuleTypes, funcs: &ModuleFunctions) -> (yes: bool)
    ensures
        yes == any_returns_i64(types@, funcs@),
{
    let mut i: usize = 0;
    while i < funcs.len()
        invariant
            i <= funcs@.len(),
            forall|j: int|
                0 <= j < i ==> !type_returns_i64(types@, (#[trigger] funcs@[j]).type_id()),
        decreases funcs@.len() - i,
    {
        let ty = funcs.get(FunctionId { index: i }).ty();
        if ty.index < types.len() {
            let results = types.get(ty).results();
            if results.len() == 1 && results[0] == ValType::I64 {
                assert(results@ =~= seq![ValType::I64]);
                return true;
            }
            assert(results@ != seq![ValType::I64]) by {
                if results@.len() == 1 {
                    assert(seq![ValType::I64][0] == ValType::I64);
                }
            }
        }
        i += 1;
    }
    false
}

/// A body that the second phase is sure to rewrite stays one when locals are added.
pub proof fn lemma_supported_more_locals(
    env: &Env,
    body: &LocalFunction,
    before: Seq<LocalView>,
    after: Seq<LocalView>,
)
    requires
        body_supported(env.scope(before), body.nodes(), body.entry().id, body.entry().id),
        body.wf(),
        locals_in_range(body.nodes(), before.len()),
        before.len() <= after.len(),
        forall|k: int| 0 <= k < before.len() ==> after[k] == before[k],
    ensures
        body_supported(env.scope(after), body.nodes(), body.entry().id, body.entry().id),
{
    let nodes = body.nodes();
    assert forall|i: int| 0 <= i < nodes.len() implies same_reading(
        env.scope(before),
        env.scope(after),
        #[trigger] nodes[i],
    ) by {
        assert(accessed_local(nodes[i]) matches Some(l) ==> l.index < before.len());
    }
    lemma_body_supported_rescoped(
        env.scope(before),
        env.scope(after),
        nodes,
        body.tag(),
        body.entry().id,
        body.entry().id,
    );
}

/// Runs the two rewriting phases on every function that the module defines, in table
/// order: first the canonicalization, then the elimination.
///
/// On success every function is well-formed, has the signature it had, and has a body
/// that is lowered against the tables of `env`; a function that returned a 64-bit value is
/// left through the global for the low bits of results, and every other function through
/// the entry it had; the table of locals has its old locals in place. Where every body was
/// lowered already and no function returned a 64-bit value, the phases succeed and leave
/// every body and the locals as they were, unless an expression is part of itself.
pub fn lower_functions(
    env: &Env,
    funcs: &mut ModuleFunctions,
    locals: &mut ModuleLocals,
    memory: MemoryId,
    generate_names: bool,
) -> (result: Result<(), Error>)
    requires
        env.wf(),
        pairs_are_i32(env.analysis.arguments@, old(locals)@),
        forall|i: int|
            0 <= i < old(funcs)@.len() ==> (#[trigger] old(funcs)@[i]).ok(env.types@, old(locals)@),
    ensures
        result is Ok ==> {
            &&& final(funcs)@.len() == old(funcs)@.len()
            &&& old(locals)@.len() <= final(locals)@.len()
            &&& forall|k: int|
                0 <= k < old(locals)@.len() ==> #[trigger] final(locals)@[k] == old(locals)@[k]
            &&& forall|i: int|
                0 <= i < old(funcs)@.len() ==> (#[trigger] final(funcs)@[i]).ok(
                    env.types@,
                    final(locals)@,
                ) && same_interface(old(funcs)@[i], final(funcs)@[i]) && left(
                    env,
                    i,
                    old(funcs)@[i],
                    final(funcs)@[i],
                )
            &&& bodies_lowered(env, final(funcs)@, final(locals)@, old(funcs)@.len() as int)
        },
        bodies_lowered(env, old(funcs)@, old(locals)@, old(funcs)@.len() as int)
            && none_returns_i64(env, old(funcs)@.len() as int) ==> (result is Ok
            && final(locals)@ == old(locals)@ && final(funcs)@.len() == old(funcs)@.len()
            && forall|i: int|
            0 <= i < old(funcs)@.len() ==> same_function(old(funcs)@[i], #[trigger] final(funcs)@[i]))
            || (result == Err::<(), Error>(Error::Unimplemented(Unimplemented::Cycle))
            && !acyclic_upto(old(funcs)@, old(funcs)@.len() as int)),
        result matches Err(e) ==> e is Unimplemented,
        bodies_supported(env, old(funcs)@, old(locals)@, old(funcs)@.len() as int) && acyclic_upto(
            old(funcs)@,
            old(funcs)@.len() as int,
        ) ==> result is Ok,
{
    let ghost calm = bodies_lowered(env, funcs@, locals@, funcs@.len() as int)
        && none_returns_i64(env, funcs@.len() as int);
    let ghost sure = bodies_supported(env, funcs@, locals@, funcs@.len() as int) && acyclic_upto(
        funcs@,
        funcs@.len() as int,
    );
    let count = funcs.len();
    let mut i: usize = 0;
    while i < count
        invariant
            i <= count,
            count == old(funcs)@.len(),
            funcs@.len() == count,
            env.wf(),
            calm == (bodies_lowered(env, old(funcs)@, old(locals)@, old(funcs)@.len() as int)
                && none_returns_i64(env, old(funcs)@.len() as int)),
            pairs_are_i32(env.analysis.arguments@, locals@),
            old(locals)@.len() <= locals@.len(),
            forall|k: int| 0 <= k < old(locals)@.len() ==> #[trigger] locals@[k] == old(locals)@[k],
            forall|j: int|
                0 <= j < count ==> (#[trigger] funcs@[j]).ok(env.types@, locals@) && same_interface(
                    old(funcs)@[j],
                    funcs@[j],
                ),
            forall|j: int| 0 <= j < i ==> left(env, j, old(funcs)@[j], #[trigger] funcs@[j]),
            forall|j: int| i <= j < count ==> #[trigger] funcs@[j] == old(funcs)@[j],
            bodies_lowered(env, funcs@, locals@, i as int),
            calm ==> locals@ == old(locals)@ && forall|j: int|
                0 <= j < count ==> same_function(old(funcs)@[j], #[trigger] funcs@[j]),
            sure == (bodies_supported(env, old(funcs)@, old(locals)@, old(funcs)@.len() as int)
                && acyclic_upto(old(funcs)@, old(funcs)@.len() as int)),
            forall|j: int|
                0 <= j < count ==> (#[trigger] old(funcs)@[j]).ok(env.types@, old(locals)@),
        decreases count - i,
    {
        let ghost funcs_before = funcs@;
        let ghost locals_before = locals@;
        let func = funcs.get_mut(FunctionId { index: i });
        match &mut func.kind {
            FunctionKind::Local(local) => {
                let ghost body_before = *local;
                proof {
                    assert(funcs_before[i as int].ok(env.types@, locals_before));
                    if calm {
                        assert(!env.returns_i64(FunctionId { index: i as int as usize }));
                        assert(old(funcs)@[i as int].kind matches FunctionKind::Local(body)
                            && body_lowered(
                            env.scope(locals_before),
                            body.nodes(),
                            body.entry().id,
                        ));
                        lemma_lowered_is_plain(
                            env.scope(locals_before),
                            local.nodes(),
                            local.entry().id,
                        );
                    }
                }
                proof {
                    if sure {
                        assert(old(funcs)@[i as int].ok(env.types@, old(locals)@));
                        assert(old(funcs)@[i as int].kind matches FunctionKind::Local(body)
                            && body_settled(body.nodes(), body.entry().id) && acyclic(
                            body.nodes(),
                        ) && (env.returns_i64(FunctionId { index: i as int as usize })
                            ==> RemoveI64::yields_i64(body.block_at(body.entry()))));
                        lemma_supported_more_locals(env, local, old(locals)@, locals_before);
                    }
                }
                // First, remove a various number of 64-bit operations by lowering them to
                // "simpler" alternatives.
                LowerI64::run(memory, generate_names, local, locals)?;
                proof {
                    lemma_pairs_stay_i32(env.analysis.arguments@, locals_before, locals@);
                }
                // And now that we've pruned our IR a bit, fully delete the i64 types.
                RemoveI64::run(env, FunctionId { index: i }, memory, generate_names, local, locals)?;
            },
            FunctionKind::Import(_) => {},
        }
        proof {
            lemma_pairs_stay_i32(env.analysis.arguments@, locals_before, locals@);
            assert forall|j: int| 0 <= j < count implies (#[trigger] funcs@[j]).ok(
                env.types@,
                locals@,
            ) && same_interface(old(funcs)@[j], funcs@[j]) by {
                lemma_ok_more_locals(funcs_before[j], env.types@, locals_before, locals@);
                if j != i {
                    assert(funcs@[j] == funcs_before[j]);
                }
            }
            assert forall|j: int| 0 <= j < i + 1 implies left(
                env,
                j,
                old(funcs)@[j],
                #[trigger] funcs@[j],
            ) by {
                if j < i {
                    assert(funcs@[j] == funcs_before[j]);
                }
            }
            assert forall|j: int| 0 <= j < i + 1 implies ((#[trigger] funcs@[j]).kind matches FunctionKind::Local(
                body,
            ) ==> body_lowered(env.scope(locals@), body.nodes(), body.entry().id)) by {
                if j < i {
                    assert(funcs@[j] == funcs_before[j]);
                    assert(funcs_before[j].ok(env.types@, locals_before));
                    if let FunctionKind::Local(body) = funcs@[j].kind {
                        lemma_lowered_more_locals(
                            env,
                            body.nodes(),
                            body.entry().id,
                            locals_before,
                            locals@,
                        );
                    }
                }
            }
            if calm {
                assert forall|j: int| 0 <= j < count implies same_function(
                    old(funcs)@[j],
                    #[trigger] funcs@[j],
                ) by {
                    if j != i {
                        assert(funcs@[j] == funcs_before[j]);
                    }
                }
            }
        }
        i += 1;
    }
    Ok(())
}

/// Once the globals of a module are as the pass leaves them, the 64-bit globals of the
/// table are exactly the recorded ones, which are those that the module had; the halves
/// recorded for them are not 64-bit globals; and the global for the low bits of results,
/// where there is one, is a 32-bit global of the table.
pub proof fn lemma_globals_lowered(before: Module)
    requires
        globals_lowered(before).len() <= usize::MAX,
    ensures
        ({
            let after = globals_lowered(before);
            let recorded = global_halves(before.globals@, before.globals@.len() as int);
            &&& forall|g: usize|
                is_i64_global(after, GlobalId { index: g }) <==> #[trigger] recorded.contains_key(g)
            &&& forall|g: usize| #[trigger]
                recorded.contains_key(g) ==> !is_i64_global(after, recorded[g].low)
                    && !is_i64_global(after, recorded[g].high)
            &&& forall|g: usize|
                is_i64_global(after, GlobalId { index: g }) <==> is_i64_global(
                    before.globals@,
                    GlobalId { index: g },
                )
            &&& low_result_of(before) matches Some(g) ==> g.index < after.len()
                && after[g.index as int].ty == ValType::I32
        }),
{
    let split = globals_split(before.globals@, before.globals@.len() as int);
    let after = globals_lowered(before);
    lemma_globals_recorded(before.globals@);
    assert forall|g: GlobalId| is_i64_global(after, g) <==> is_i64_global(split, g) by {
        if g.index < split.len() {
            assert(after[g.index as int] == split[g.index as int]);
        }
    }
}

/// What the analysis leaves of the functions of a well-formed module without a faulty
/// function: every function is well-formed against the new tables of types and locals, and
/// no signature mentions a 64-bit integer.
pub proof fn lemma_functions_after_split(before: Module, funcs: Seq<Function>)
    requires
        before.wf(),
        before.funcs@.len() <= usize::MAX,
        split_upto(before, before.funcs@.len() as int).locals.len() <= usize::MAX,
        split_upto(before, before.funcs@.len() as int).types.len() <= usize::MAX,
        no_function_fault(
            before.types@,
            signatures_of(before.funcs@),
            before.exports@,
            before.funcs@.len() as int,
        ),
        functions_split(
            before.types@,
            before.funcs@,
            funcs,
            unsplit(before),
            before.funcs@.len() as int,
        ),
    ensures
        ({
            let end = split_upto(before, before.funcs@.len() as int);
            forall|i: int|
                0 <= i < funcs.len() ==> (#[trigger] funcs[i]).ok(end.types, end.locals)
                    && !type_mentions_i64(end.types, funcs[i].type_id())
        }),
{
    let n = before.funcs@.len() as int;
    let types = before.types@;
    let sigs = signatures_of(before.funcs@);
    let start = unsplit(before);
    let end = split_upto(before, n);
    lemma_signatures_split(types, sigs, start, n);
    assert forall|i: int| 0 <= i < funcs.len() implies (#[trigger] funcs[i]).ok(
        end.types,
        end.locals,
    ) && !type_mentions_i64(end.types, funcs[i].type_id()) by {
        let old_func = before.funcs@[i];
        assert(old_func.ok(before.types@, before.locals@));
        let ty = types[old_func.type_id().index as int];
        let earlier = split_upto(before, i);
        let next = split_upto(before, i + 1);
        assert(sigs[i] == signature_of(old_func));
        assert(sigs[i].ty == old_func.type_id());
        lemma_split_prefix(types, sigs, start, 0, i);
        lemma_split_prefix(types, sigs, start, i, i + 1);
        lemma_split_prefix(types, sigs, start, i + 1, n);
        if ty.mentions_i64() {
            assert(function_fault(types, sigs, before.exports@, i) is None);
            assert(ty.results.len() <= 1);
            let count = 2 * i64_count(ty.params, ty.params.len() as int);
            assert(next.types == earlier.types.push(split_type(ty)));
            assert(next.locals == earlier.locals + fresh_locals(count));
            assert(end.types[earlier.types.len() as int] == split_type(ty));
            lemma_split_type(ty);
            assert(fresh_i32(end.locals, earlier.locals.len(), count)) by {
                assert forall|j: int|
                    earlier.locals.len() <= j < earlier.locals.len() + count implies (
                #[trigger] end.locals[j]).ty == ValType::I32 by {}
            }
            if let FunctionKind::Local(old_body) = old_func.kind {
                lemma_split_args_match(
                    old_body.arg_list(),
                    ty.params,
                    before.locals@,
                    end.locals,
                    earlier.locals.len(),
                    ty.params.len() as int,
                );
            }
        } else {
            assert(funcs[i] == old_func);
            assert(end.types[old_func.type_id().index as int] == ty);
        }
    }
}

/// Rewrites the module so that no function takes, returns, holds or computes a 64-bit
/// integer: each 64-bit value becomes a pair of 32-bit values. A function that returned a
/// 64-bit value returns its high bits and leaves its low bits in a global that the pass
/// adds for this purpose.
///
/// The pass fails with [`Error::InvalidInput`] exactly on a module that uses 64-bit
/// integers in a way it refuses, and names the first such use; this is found before any
/// body is rewritten. It fails with [`Error::Unimplemented`] only on a module without such
/// a use. Where it succeeds, the module is as [`lowers`] describes. On a module that is
/// free of 64-bit integers already, as far as its functions reach, and without a refused
/// use, it succeeds and leaves the bodies, the types and the locals as they were, unless
/// an expression is part of itself.
///
/// After a failure the module is not meant to be used.
pub fn run(module: &mut Module) -> (result: Result<(), Error>)
    requires
        old(module).wf(),
    ensures
        run_outcome(*old(module), *final(module), result),
{
    let ghost before = *module;
    let ghost n = module.funcs@.len() as int;
    let mut analysis = Analysis::new();
    analysis.split_globals(&mut module.globals, &module.exports)?;

    // A function that returned a 64-bit value returns the high bits alone: it leaves the
    // low bits in a global of their own, where its caller finds them.
    let low_result = if any_result_i64(&module.types, &module.funcs) {
        Some(module.globals.add_local(ValType::I32, true, Const::Value(Value::I32(0))))
    } else {
        None
    };
    assert(module.globals@ == globals_lowered(before));
    assert(low_result == low_result_of(before));

    // lowering might require a memory, so if one isn't already here then we go ahead and
    // add one. If one is already here then we assume address 0 and near are not used.
    let memory = match module.memories.first() {
        Some(memory) => memory,
        None => module.memories.add_local(false, 1, Some(1)),
    };
    assert(module.memories@ =~= memory_ensured(before.memories@));

    // First up, serially, map all function signatures. Here we'll be modifying the global
    // registry of types and updating all function signatures all over the place.
    assert(signatures_ok(module.types@, module.funcs@)) by {
        assert forall|i: int| 0 <= i < module.funcs@.len() implies {
            let sig = #[trigger] signature_of(module.funcs@[i]);
            &&& sig.ty.index < module.types@.len()
            &&& sig.local ==> sig.args.len() == module.types@[sig.ty.index as int].params.len()
        } by {
            assert(module.funcs@[i].ok(module.types@, module.locals@));
        }
    }
    analysis.split_function_arguments(
        &mut module.types,
        &mut module.locals,
        &mut module.funcs,
        &module.exports,
    )?;
    let _ = module.locals.len();
    let _ = module.types.len();
    let _ = module.funcs.len();
    let _ = module.globals.len();
    let ghost mid = *module;
    let ghost split = split_upto(before, n);
    proof {
        assert(analysis.globals@ =~= global_halves(before.globals@, before.globals@.len() as int));
        lemma_globals_lowered(before);
        lemma_signatures_split(before.types@, signatures_of(before.funcs@), unsplit(before), n);
        lemma_functions_after_split(before, mid.funcs@);
        assert(forall|f: int|
            0 <= f < n ==> (#[trigger] signatures_of(before.funcs@)[f]).ty
                == before.funcs@[f].type_id());
    }
    let env = Env {
        analysis: &analysis,
        types: &module.types,
        globals: &module.globals,
        low_result,
    };
    proof {
        assert(env.wf()) by {
            assert forall|f: usize| #[trigger]
                analysis.old_function_types@.contains_key(f)
                    implies analysis.old_function_types@[f].index < module.types@.len() by {
                let i = f as int;
                assert(i < n);
                assert(analysis.old_function_types@.contains_key(i as usize));
                assert(before.funcs@[i].ok(before.types@, before.locals@));
                assert(analysis.old_function_types@[f] == signatures_of(before.funcs@)[i].ty);
            }
            assert forall|f: usize| #[trigger]
                analysis.old_function_types@.contains_key(f) && type_returns_i64(
                    module.types@,
                    analysis.old_function_types@[f],
                ) implies low_result is Some by {
                let i = f as int;
                assert(i < n);
                assert(analysis.old_function_types@.contains_key(i as usize));
                assert(before.funcs@[i].ok(before.types@, before.locals@));
                let ty = before.funcs@[i].type_id();
                assert(analysis.old_function_types@[f] == signatures_of(before.funcs@)[i].ty);
                assert(module.types@[ty.index as int] == before.types@[ty.index as int]);
                assert(type_returns_i64(before.types@, before.funcs@[i].type_id()));
            }
        }
        if module_lowered(before) && faultless(before) {
            lemma_quiet_after_split(before, mid, &env);
        }
        if module_supported(before) && faultless(before) && bodies_acyclic(before) {
            lemma_sure_after_split(before, mid, &env);
        }
    }
    lower_functions(&env, &mut module.funcs, &mut module.locals, memory, module.config.generate_names)?;
    proof {
        lemma_lowered_at_last(before, mid, *module, &env);
    }
    Ok(())
}

/// On a module that is free of 64-bit integers and without a refused use, the analysis
/// changes neither types, locals nor functions, and every body is lowered against the
/// tables that the second phase reads.
pub proof fn lemma_quiet_after_split(before: Module, mid: Module, env: &Env)
    requires
        before.wf(),
        before.funcs@.len() <= usize::MAX,
        mid.globals@.len() <= usize::MAX,
        mid.locals@.len() <= usize::MAX,
        module_lowered(before),
        faultless(before),
        mid.globals@ == globals_lowered(before),
        mid.types@ == split_upto(before, before.funcs@.len() as int).types,
        mid.locals@ == split_upto(before, before.funcs@.len() as int).locals,
        functions_split(
            before.types@,
            before.funcs@,
            mid.funcs@,
            unsplit(before),
            before.funcs@.len() as int,
        ),
        env.types@ == mid.types@,
        env.globals@ == mid.globals@,
        env.analysis.old_function_types@ == split_upto(
            before,
            before.funcs@.len() as int,
        ).old_function_types,
    ensures
        mid.types@ == before.types@,
        mid.locals@ == before.locals@,
        mid.funcs@ == before.funcs@,
        bodies_lowered(env, mid.funcs@, mid.locals@, mid.funcs@.len() as int),
        none_returns_i64(env, mid.funcs@.len() as int),
{
    let n = before.funcs@.len() as int;
    let types = before.types@;
    let sigs = signatures_of(before.funcs@);
    assert forall|i: int| 0 <= i < n implies !(#[trigger] types[sigs[i].ty.index as int]).mentions_i64() by {
        assert(function_lowered(scope_of(before), before.funcs@[i]));
        assert(before.funcs@[i].ok(before.types@, before.locals@));
        assert(sigs[i] == signature_of(before.funcs@[i]));
    }
    lemma_split_nothing(types, sigs, unsplit(before), n);
    lemma_globals_lowered(before);
    lemma_signatures_split(types, sigs, unsplit(before), n);
    assert forall|i: int| 0 <= i < n implies !#[trigger] env.returns_i64(
        FunctionId { index: i as usize },
    ) by {
        assert(!types[sigs[i].ty.index as int].mentions_i64());
        if env.returns_i64(FunctionId { index: i as usize }) {
            assert(types[sigs[i].ty.index as int].results[0] == ValType::I64);
        }
    }
    assert(mid.funcs@ =~= before.funcs@) by {
        assert forall|i: int| 0 <= i < n implies mid.funcs@[i] == before.funcs@[i] by {
            assert(!types[sigs[i].ty.index as int].mentions_i64());
            assert(sigs[i] == signature_of(before.funcs@[i]));
        }
    }
    let a = scope_of(before);
    let b = env.scope(mid.locals@);
    assert forall|i: int| 0 <= i < n implies ((#[trigger] mid.funcs@[i]).kind matches FunctionKind::Local(
        body,
    ) ==> body_lowered(b, body.nodes(), body.entry().id)) by {
        if let FunctionKind::Local(body) = mid.funcs@[i].kind {
            assert(function_lowered(a, before.funcs@[i]));
            let nodes = body.nodes();
            assert forall|x: int| 0 <= x < nodes.len() && lowered(a, nodes[x]) implies lowered(
                b,
                #[trigger] nodes[x],
            ) by {
                match nodes[x] {
                    ExprView::Call(c) => {
                        if callee_mentions_i64(b, c.func) {
                            lemma_signatures_split(types, sigs, unsplit(before), n);
                            let f = c.func.index as int;
                            assert(f < n);
                            assert(b.callees.contains_key(f as usize));
                            assert(b.callees[f as usize] == sigs[f].ty);
                            assert(!types[sigs[f].ty.index as int].mentions_i64());
                        }
                    },
                    ExprView::GlobalGet(g) => {
                        assert(is_i64_global(mid.globals@, GlobalId { index: g.global.index })
                            <==> is_i64_global(before.globals@, GlobalId { index: g.global.index }));
                    },
                    ExprView::GlobalSet(g) => {
                        assert(is_i64_global(mid.globals@, GlobalId { index: g.global.index })
                            <==> is_i64_global(before.globals@, GlobalId { index: g.global.index }));
                    },
                    _ => {},
                }
            }
            lemma_body_rescoped(a, b, nodes, body.entry().id);
        }
    }
}

/// On a well-formed module without a refused use whose bodies the pass is sure to
/// rewrite, the two phases are sure to rewrite every body once the analysis has run.
pub proof fn lemma_sure_after_split(before: Module, mid: Module, env: &Env)
    requires
        before.wf(),
        before.funcs@.len() <= usize::MAX,
        mid.globals@.len() <= usize::MAX,
        mid.locals@.len() <= usize::MAX,
        module_supported(before),
        bodies_acyclic(before),
        faultless(before),
        mid.globals@ == globals_lowered(before),
        mid.types@ == split_upto(before, before.funcs@.len() as int).types,
        mid.locals@ == split_upto(before, before.funcs@.len() as int).locals,
        functions_split(
            before.types@,
            before.funcs@,
            mid.funcs@,
            unsplit(before),
            before.funcs@.len() as int,
        ),
        env.types@ == mid.types@,
        env.globals@ == mid.globals@,
        env.analysis.old_function_types@ == split_upto(
            before,
            before.funcs@.len() as int,
        ).old_function_types,
    ensures
        bodies_supported(env, mid.funcs@, mid.locals@, mid.funcs@.len() as int),
        acyclic_upto(mid.funcs@, mid.funcs@.len() as int),
{
    let n = before.funcs@.len() as int;
    let types = before.types@;
    let sigs = signatures_of(before.funcs@);
    lemma_globals_lowered(before);
    lemma_signatures_split(types, sigs, unsplit(before), n);
    lemma_split_types_free(types, sigs, before.exports@, unsplit(before), n);
    let a = scope_of(before);
    let b = env.scope(mid.locals@);
    assert forall|i: int| 0 <= i < n implies ((#[trigger] mid.funcs@[i]).kind matches FunctionKind::Local(
        body,
    ) ==> body_settled(body.nodes(), body.entry().id) && body_supported(
        b,
        body.nodes(),
        body.entry().id,
        body.entry().id,
    ) && acyclic(body.nodes()) && (env.returns_i64(FunctionId { index: i as usize })
        ==> RemoveI64::yields_i64(body.block_at(body.entry())))) by {
        if let FunctionKind::Local(body) = mid.funcs@[i].kind {
            assert(before.funcs@[i].ok(before.types@, before.locals@));
            assert(function_supported(a, before.funcs@[i]));
            assert(sigs[i] == signature_of(before.funcs@[i]));
            let old_body = before.funcs@[i].kind->Local_0;
            assert(body.nodes() == old_body.nodes());
            assert(body.entry() == old_body.entry());
            assert(body.tag() == old_body.tag());
            let nodes = body.nodes();
            assert forall|x: int| 0 <= x < nodes.len() implies same_reading(
                a,
                b,
                #[trigger] nodes[x],
            ) by {
                assert(accessed_local(nodes[x]) matches Some(l) ==> l.index
                    < before.locals@.len());
                match nodes[x] {
                    ExprView::Call(c) => {
                        let f = c.func.index as int;
                        if f < n {
                            assert(b.callees.contains_key(f as usize));
                            assert(b.callees[f as usize] == sigs[f].ty);
                            assert(sigs[f] == signature_of(before.funcs@[f]));
                            assert(before.funcs@[f].ok(before.types@, before.locals@));
                        }
                    },
                    ExprView::GlobalGet(g) => {
                        assert(is_i64_global(mid.globals@, GlobalId { index: g.global.index })
                            <==> is_i64_global(
                            before.globals@,
                            GlobalId { index: g.global.index },
                        ));
                    },
                    ExprView::GlobalSet(g) => {
                        assert(is_i64_global(mid.globals@, GlobalId { index: g.global.index })
                            <==> is_i64_global(
                            before.globals@,
                            GlobalId { index: g.global.index },
                        ));
                    },
                    _ => {},
                }
            }
            lemma_body_supported_rescoped(
                a,
                b,
                nodes,
                body.tag(),
                body.entry().id,
                body.entry().id,
            );
        }
    }
}

/// Once the analysis and the two phases have succeeded, the module is as the pass
/// promises.
pub proof fn lemma_lowered_at_last(before: Module, mid: Module, after: Module, env: &Env)
    requires
        before.wf(),
        before.funcs@.len() <= usize::MAX,
        mid.globals@.len() <= usize::MAX,
        mid.locals@.len() <= usize::MAX,
        mid.types@.len() <= usize::MAX,
        faultless(before),
        mid.globals@ == globals_lowered(before),
        mid.memories@ == memory_ensured(before.memories@),
        mid.exports@ == before.exports@,
        mid.config == before.config,
        mid.types@ == split_upto(before, before.funcs@.len() as int).types,
        mid.locals@ == split_upto(before, before.funcs@.len() as int).locals,
        functions_split(
            before.types@,
            before.funcs@,
            mid.funcs@,
            unsplit(before),
            before.funcs@.len() as int,
        ),
        env.types@ == mid.types@,
        env.globals@ == mid.globals@,
        env.low_result == low_result_of(before),
        env.analysis.old_function_types@ == split_upto(
            before,
            before.funcs@.len() as int,
        ).old_function_types,
        after.globals@ == mid.globals@,
        after.memories@ == mid.memories@,
        after.exports@ == mid.exports@,
        after.config == mid.config,
        after.types@ == mid.types@,
        after.funcs@.len() == mid.funcs@.len(),
        mid.locals@.len() <= after.locals@.len(),
        forall|k: int| 0 <= k < mid.locals@.len() ==> #[trigger] after.locals@[k] == mid.locals@[k],
        forall|i: int|
            0 <= i < mid.funcs@.len() ==> (#[trigger] after.funcs@[i]).ok(env.types@, after.locals@)
                && same_interface(mid.funcs@[i], after.funcs@[i]) && left(
                env,
                i,
                mid.funcs@[i],
                after.funcs@[i],
            ),
        bodies_lowered(env, after.funcs@, after.locals@, mid.funcs@.len() as int),
    ensures
        lowers(before, after),
        module_lowered(before) && faultless(before) && mid.types@ == before.types@ && mid.locals@
            == before.locals@ && mid.funcs@ == before.funcs@ && after.locals@ == mid.locals@
            && (forall|i: int|
            0 <= i < mid.funcs@.len() ==> same_function(mid.funcs@[i], #[trigger] after.funcs@[i]))
            ==> untouched(before, after),
{
    let n = before.funcs@.len() as int;
    let types = before.types@;
    let sigs = signatures_of(before.funcs@);
    lemma_functions_after_split(before, mid.funcs@);
    lemma_globals_lowered(before);
    lemma_signatures_split(types, sigs, unsplit(before), n);
    let a = env.scope(after.locals@);
    let b = scope_of(after);
    assert forall|i: int| 0 <= i < n implies function_lowered(b, #[trigger] after.funcs@[i]) by {
        let func = after.funcs@[i];
        assert(mid.funcs@[i].ok(mid.types@, mid.locals@));
        assert(same_interface(mid.funcs@[i], func));
        assert(func.type_id() == mid.funcs@[i].type_id());
        assert(func.ok(env.types@, after.locals@));
        if let FunctionKind::Local(body) = func.kind {
            let nodes = body.nodes();
            assert forall|x: int| 0 <= x < nodes.len() && lowered(a, nodes[x]) implies lowered(
                b,
                #[trigger] nodes[x],
            ) by {
                match nodes[x] {
                    ExprView::Call(c) => {
                        if callee_mentions_i64(b, c.func) {
                            let f = c.func.index as int;
                            assert(same_interface(mid.funcs@[f], after.funcs@[f]));
                            assert(!type_mentions_i64(mid.types@, mid.funcs@[f].type_id()));
                        }
                    },
                    _ => {},
                }
            }
            lemma_body_rescoped(a, b, nodes, body.entry().id);
            let params = after.types@[func.type_id().index as int].params;
            assert forall|k: int| 0 <= k < body.arg_list().len() implies !is_i64_local(
                after.locals@,
                #[trigger] body.arg_list()[k],
            ) by {
                assert(after.locals@[body.arg_list()[k].index as int].ty == params[k]);
            }
        }
    }
    assert forall|g: usize| #[trigger]
        exports_item(after.exports@, ExportItem::Global(GlobalId { index: g })) implies !is_i64_global(
        after.globals@,
        GlobalId { index: g },
    ) by {
        if is_i64_global(after.globals@, GlobalId { index: g }) {
            assert(is_i64_global(before.globals@, GlobalId { index: g }));
            assert(global_fault(before.globals@, before.exports@, g as int) is None);
        }
    }
    assert forall|i: int| 0 <= i < n implies #[trigger] function_rewritten(before, after, i) by {
        assert(same_interface(mid.funcs@[i], after.funcs@[i]));
        assert(left(env, i, mid.funcs@[i], after.funcs@[i]));
        assert(sigs[i] == signature_of(before.funcs@[i]));
        assert(before.funcs@[i].ok(before.types@, before.locals@));
        let ty = types[before.funcs@[i].type_id().index as int];
        let split = split_upto(before, n);
        assert(split.old_function_types.contains_key(i as usize));
        assert(split.old_function_types[i as usize] == sigs[i].ty);
        assert(split.types[sigs[i].ty.index as int] == ty);
        assert(env.returns_i64(FunctionId { index: i as usize }) <==> ty.results == seq![
            ValType::I64,
        ]);
        if ty.results == seq![ValType::I64] {
            assert(ty.results[0] == ValType::I64);
            assert(ty.mentions_i64());
        }
    }
    assert(after.wf());
}

} // verus!
