//! What follows from the analysis: facts about the tables it leaves, on which the two
//! rewriting phases and the laws of the pass rest.

use vstd::prelude::*;
use crate::ir::node::{GlobalId, LocalId};
use crate::module::exports::ExportView;
use crate::module::functions::args_match;
use crate::module::globals::Global;
use crate::module::locals::LocalView;
use crate::passes::remove_i64::analysis::{
    arguments_split, fresh_locals, function_fault, global_halves, globals_split, i64_count,
    i64_globals_before, lemma_globals_split_shape, lemma_i64_globals_monotone, no_function_fault,
    Replace, Signature, signatures_split, Split, split_args, split_params, split_results,
    split_type,
};
use crate::passes::remove_i64::walk::{is_i32_local, is_i64_global};
use crate::ty::{mentions_i64, TypeView, ValType};

verus! {

/// Every global that splitting adds is a 32-bit global.
pub proof fn lemma_split_globals_are_i32(before: Seq<Global>, n: int)
    requires
        0 <= n <= before.len(),
    ensures
        forall|j: int|
            before.len() <= j < globals_split(before, n).len() ==> (#[trigger] globals_split(
                before,
                n,
            )[j]).ty == ValType::I32,
    decreases n,
{
    if n > 0 {
        lemma_split_globals_are_i32(before, n - 1);
        lemma_globals_split_shape(before, n - 1);
    }
}

/// Once every 64-bit global is split, the 64-bit globals of the table are exactly the
/// recorded ones, and the halves recorded for them are not 64-bit globals.
pub proof fn lemma_globals_recorded(before: Seq<Global>)
    requires
        globals_split(before, before.len() as int).len() <= usize::MAX,
    ensures
        ({
            let after = globals_split(before, before.len() as int);
            let recorded = global_halves(before, before.len() as int);
            &&& forall|g: usize|
                is_i64_global(after, GlobalId { index: g }) <==> #[trigger] recorded.contains_key(g)
            &&& forall|g: usize| #[trigger]
                recorded.contains_key(g) ==> !is_i64_global(after, recorded[g].low)
                    && !is_i64_global(after, recorded[g].high)
            &&& forall|g: usize|
                is_i64_global(after, GlobalId { index: g }) <==> is_i64_global(
                    before,
                    GlobalId { index: g },
                )
        }),
{
    let n = before.len() as int;
    let after = globals_split(before, n);
    let recorded = global_halves(before, n);
    lemma_globals_split_shape(before, n);
    lemma_split_globals_are_i32(before, n);
    assert forall|g: usize| #[trigger] recorded.contains_key(g) implies !is_i64_global(
        after,
        recorded[g].low,
    ) && !is_i64_global(after, recorded[g].high) by {
        lemma_i64_globals_monotone(before, n);
        let low = before.len() + 2 * i64_globals_before(before, g as int);
        assert(i64_globals_before(before, g as int + 1) == i64_globals_before(before, g as int)
            + 1);
        assert(low + 2 <= after.len());
        assert(recorded[g].low.index == low);
        assert(recorded[g].high.index == low + 1);
        assert(after[low as int].ty == ValType::I32);
        assert(after[low as int + 1].ty == ValType::I32);
    }
}

/// The count of 64-bit integers among the first types grows with the number of types.
pub proof fn lemma_i64_count_monotone(types: Seq<ValType>, n: int)
    ensures
        forall|k: int| k <= n ==> i64_count(types, k) <= i64_count(types, n),
    decreases n,
{
    if n > 0 {
        lemma_i64_count_monotone(types, n - 1);
    }
}

/// Split parameters hold no 64-bit integer, and there is one for each parameter and one
/// more for each 64-bit parameter.
pub proof fn lemma_split_params(params: Seq<ValType>, n: int)
    requires
        0 <= n <= params.len(),
    ensures
        !mentions_i64(split_params(params, n)),
        split_params(params, n).len() == n + i64_count(params, n),
    decreases n,
{
    if n > 0 {
        lemma_split_params(params, n - 1);
    }
}

/// A split signature with at most one result mentions no 64-bit integer.
pub proof fn lemma_split_type(ty: TypeView)
    requires
        ty.results.len() <= 1,
    ensures
        !split_type(ty).mentions_i64(),
{
    lemma_split_params(ty.params, ty.params.len() as int);
    let results = split_results(ty.results);
    assert forall|i: int| 0 <= i < results.len() implies results[i] != ValType::I64 by {}
}

/// Whether the locals from position `base` on, `count` of them, are 32-bit locals of
/// `locals`.
pub open spec fn fresh_i32(locals: Seq<LocalView>, base: nat, count: nat) -> bool {
    &&& base + count <= locals.len()
    &&& forall|j: int| base <= j < base + count ==> (#[trigger] locals[j]).ty == ValType::I32
}

/// Split arguments match split parameters, in a table of locals that has the old locals in
/// place and the fresh halves after them.
pub proof fn lemma_split_args_match(
    args: Seq<LocalId>,
    params: Seq<ValType>,
    old_locals: Seq<LocalView>,
    locals: Seq<LocalView>,
    base: nat,
    n: int,
)
    requires
        0 <= n <= params.len(),
        args_match(args, params, old_locals),
        old_locals.len() <= locals.len(),
        forall|j: int| 0 <= j < old_locals.len() ==> locals[j] == old_locals[j],
        fresh_i32(locals, base, 2 * i64_count(params, params.len() as int)),
        locals.len() <= usize::MAX,
    ensures
        args_match(split_args(args, params, base, n), split_params(params, n), locals),
    decreases n,
{
    lemma_split_params(params, n);
    if n > 0 {
        lemma_split_args_match(args, params, old_locals, locals, base, n - 1);
        lemma_split_params(params, n - 1);
        lemma_i64_count_monotone(params, params.len() as int);
        let earlier = split_args(args, params, base, n - 1);
        let now = split_args(args, params, base, n);
        let types = split_params(params, n);
        if params[n - 1] == ValType::I64 {
            let low = base + 2 * i64_count(params, n - 1);
            assert(i64_count(params, n) == i64_count(params, n - 1) + 1);
            assert(low + 2 <= base + 2 * i64_count(params, params.len() as int));
            assert(locals[low as int].ty == ValType::I32);
            assert(locals[low as int + 1].ty == ValType::I32);
            assert forall|k: int| 0 <= k < now.len() implies (#[trigger] now[k]).index
                < locals.len() && locals[now[k].index as int].ty == types[k] by {
                if k < earlier.len() {
                    assert(now[k] == earlier[k]);
                }
            }
        } else {
            assert(args[n - 1].index < old_locals.len());
            assert forall|k: int| 0 <= k < now.len() implies (#[trigger] now[k]).index
                < locals.len() && locals[now[k].index as int].ty == types[k] by {
                if k < earlier.len() {
                    assert(now[k] == earlier[k]);
                }
            }
        }
    }
}

/// Whether every pair that `recorded` holds is a pair of 32-bit locals of `locals`.
pub open spec fn pairs_are_i32(recorded: Map<usize, Replace<LocalId>>, locals: Seq<LocalView>) -> bool {
    forall|k: usize| #[trigger]
        recorded.contains_key(k) ==> is_i32_local(locals, recorded[k].low) && is_i32_local(
            locals,
            recorded[k].high,
        )
}

/// The pairs recorded for split arguments are pairs of 32-bit locals.
pub proof fn lemma_arguments_are_i32(
    recorded: Map<usize, Replace<LocalId>>,
    args: Seq<LocalId>,
    params: Seq<ValType>,
    locals: Seq<LocalView>,
    base: nat,
    n: int,
)
    requires
        0 <= n <= params.len(),
        pairs_are_i32(recorded, locals),
        fresh_i32(locals, base, 2 * i64_count(params, params.len() as int)),
        locals.len() <= usize::MAX,
    ensures
        pairs_are_i32(arguments_split(recorded, args, params, base, n), locals),
    decreases n,
{
    if n > 0 {
        lemma_arguments_are_i32(recorded, args, params, locals, base, n - 1);
        lemma_i64_count_monotone(params, params.len() as int);
        if params[n - 1] == ValType::I64 {
            let low = base + 2 * i64_count(params, n - 1);
            assert(i64_count(params, n) == i64_count(params, n - 1) + 1);
            assert(low + 2 <= base + 2 * i64_count(params, params.len() as int));
            assert(locals[low as int].ty == ValType::I32);
            assert(locals[low as int + 1].ty == ValType::I32);
        }
    }
}

/// Pairs of 32-bit locals stay pairs of 32-bit locals when locals are added.
pub proof fn lemma_pairs_stay_i32(
    recorded: Map<usize, Replace<LocalId>>,
    before: Seq<LocalView>,
    after: Seq<LocalView>,
)
    requires
        pairs_are_i32(recorded, before),
        before.len() <= after.len(),
        forall|j: int| 0 <= j < before.len() ==> after[j] == before[j],
    ensures
        pairs_are_i32(recorded, after),
{
}

/// What splitting the signatures of the first `n` functions leaves, from a start in which
/// the recorded pairs are pairs of 32-bit locals: the old types and locals in place; 32-bit
/// locals after the old ones; pairs of 32-bit locals; and each of the `n` functions recorded
/// with its type.
pub proof fn lemma_signatures_split(types: Seq<TypeView>, sigs: Seq<Signature>, start: Split, n: int)
    requires
        0 <= n <= sigs.len(),
        pairs_are_i32(start.arguments, start.locals),
        signatures_split(types, sigs, start, n).locals.len() <= usize::MAX,
        sigs.len() <= usize::MAX,
    ensures
        ({
            let end = signatures_split(types, sigs, start, n);
            &&& start.types.len() <= end.types.len()
            &&& forall|k: int| 0 <= k < start.types.len() ==> end.types[k] == start.types[k]
            &&& start.locals.len() <= end.locals.len()
            &&& forall|k: int| 0 <= k < start.locals.len() ==> end.locals[k] == start.locals[k]
            &&& forall|k: int|
                start.locals.len() <= k < end.locals.len() ==> (#[trigger] end.locals[k]).ty
                    == ValType::I32
            &&& pairs_are_i32(end.arguments, end.locals)
            &&& forall|f: int|
                0 <= f < n ==> #[trigger] end.old_function_types.contains_key(f as usize)
                    && end.old_function_types[f as usize] == sigs[f].ty
            &&& forall|f: usize| #[trigger]
                end.old_function_types.contains_key(f) ==> f < n
                    || start.old_function_types.contains_key(f)
        }),
    decreases n,
{
    if n > 0 {
        let earlier = signatures_split(types, sigs, start, n - 1);
        let end = signatures_split(types, sigs, start, n);
        assert(earlier.locals.len() <= end.locals.len());
        lemma_signatures_split(types, sigs, start, n - 1);
        let sig = sigs[n - 1];
        let ty = types[sig.ty.index as int];
        if ty.mentions_i64() {
            let count = 2 * i64_count(ty.params, ty.params.len() as int);
            assert(end.locals == earlier.locals + fresh_locals(count));
            lemma_pairs_stay_i32(earlier.arguments, earlier.locals, end.locals);
            assert(fresh_i32(end.locals, earlier.locals.len(), count));
            lemma_arguments_are_i32(
                earlier.arguments,
                sig.args,
                ty.params,
                end.locals,
                earlier.locals.len(),
                ty.params.len() as int,
            );
        }
        assert forall|f: int| 0 <= f < n implies #[trigger] end.old_function_types.contains_key(
            f as usize,
        ) && end.old_function_types[f as usize] == sigs[f].ty by {
            if f < n - 1 {
                assert(earlier.old_function_types.contains_key(f as usize));
            }
        }
    }
}

/// What splitting has left after fewer functions is still in place after more.
pub proof fn lemma_split_prefix(
    types: Seq<TypeView>,
    sigs: Seq<Signature>,
    start: Split,
    a: int,
    b: int,
)
    requires
        0 <= a <= b <= sigs.len(),
    ensures
        ({
            let less = signatures_split(types, sigs, start, a);
            let more = signatures_split(types, sigs, start, b);
            &&& less.types.len() <= more.types.len()
            &&& forall|k: int| 0 <= k < less.types.len() ==> more.types[k] == less.types[k]
            &&& less.locals.len() <= more.locals.len()
            &&& forall|k: int| 0 <= k < less.locals.len() ==> more.locals[k] == less.locals[k]
        }),
    decreases b - a,
{
    if a < b {
        lemma_split_prefix(types, sigs, start, a, b - 1);
    }
}

/// Where no function among the first `n` mentions a 64-bit integer in its signature,
/// splitting leaves the types, the locals and the recorded arguments as they were.
pub proof fn lemma_split_nothing(types: Seq<TypeView>, sigs: Seq<Signature>, start: Split, n: int)
    requires
        0 <= n <= sigs.len(),
        forall|i: int| 0 <= i < n ==> !(#[trigger] types[sigs[i].ty.index as int]).mentions_i64(),
    ensures
        signatures_split(types, sigs, start, n).types == start.types,
        signatures_split(types, sigs, start, n).locals == start.locals,
        signatures_split(types, sigs, start, n).arguments == start.arguments,
        signatures_split(types, sigs, start, n).old_types_to_new == start.old_types_to_new,
    decreases n,
{
    if n > 0 {
        lemma_split_nothing(types, sigs, start, n - 1);
        assert(!types[sigs[n - 1].ty.index as int].mentions_i64());
    }
}

/// Where no 64-bit global is among the first `n`, splitting leaves the globals as they
/// were.
pub proof fn lemma_split_no_global(before: Seq<Global>, n: int)
    requires
        0 <= n <= before.len(),
        forall|i: int| 0 <= i < n ==> (#[trigger] before[i]).ty != ValType::I64,
    ensures
        globals_split(before, n) == before,
    decreases n,
{
    if n > 0 {
        lemma_split_no_global(before, n - 1);
    }
}

/// Every signature that splitting adds to the type table, for functions without a fault,
/// mentions no 64-bit integer.
pub proof fn lemma_split_types_free(
    types: Seq<TypeView>,
    sigs: Seq<Signature>,
    exports: Seq<ExportView>,
    start: Split,
    n: int,
)
    requires
        0 <= n <= sigs.len(),
        no_function_fault(types, sigs, exports, n),
    ensures
        forall|k: int|
            start.types.len() <= k < signatures_split(types, sigs, start, n).types.len() ==> !(
            #[trigger] signatures_split(types, sigs, start, n).types[k]).mentions_i64(),
    decreases n,
{
    if n > 0 {
        lemma_split_types_free(types, sigs, exports, start, n - 1);
        lemma_split_prefix(types, sigs, start, 0, n - 1);
        let ty = types[sigs[n - 1].ty.index as int];
        if ty.mentions_i64() {
            assert(function_fault(types, sigs, exports, n - 1) is None);
            lemma_split_type(ty);
        }
    }
}

} // verus!
