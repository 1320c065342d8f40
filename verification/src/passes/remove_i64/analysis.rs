//! The analysis that runs once per module, before any body is visited: it splits every
//! 64-bit global and every signature that mentions a 64-bit integer.

use vstd::prelude::*;
use vstd::std_specs::hash::*;
use std::collections::HashMap;
use crate::const_value::Const;
use crate::error::{Error, InvalidInput};
use crate::ir::node::{FunctionId, GlobalId, LocalId};
use crate::ir::ops::Value;
use crate::module::exports::{ExportItem, exports_item, ExportView, ModuleExports};
use crate::module::functions::{Function, FunctionKind, ModuleFunctions};
use crate::module::globals::{Global, GlobalKind, ModuleGlobals};
use crate::module::locals::{LocalView, ModuleLocals};
use crate::module::types::ModuleTypes;
use crate::ty::{copy_types, has_i64, TypeId, TypeView, ValType};

verus! {

broadcast use vstd::std_specs::hash::group_hash_axioms;

/// The two 32-bit entities that stand for one 64-bit entity.
#[derive(Clone, Copy, Debug, PartialEq, Eq, Structural)]
pub struct Replace<T> {
    /// The entity that holds the low 32 bits.
    pub low: T,
    /// The entity that holds the high 32 bits.
    pub high: T,
}

/// The low 32 bits of a 64-bit integer, as a signed 32-bit integer.
pub open spec fn low_half(value: i64) -> i32 {
    value as i32
}

/// The high 32 bits of a 64-bit integer, as a signed 32-bit integer.
pub open spec fn high_half(value: i64) -> i32 {
    (value >> 32) as i32
}

/// The low 32 bits of a 64-bit integer.
pub fn low_bits_of(value: i64) -> (low: i32)
    ensures
        low == low_half(value),
{
    #[verifier::truncate]
    (value as i32)
}

/// The high 32 bits of a 64-bit integer.
pub fn high_bits_of(value: i64) -> (high: i32)
    ensures
        high == high_half(value),
{
    #[verifier::truncate]
    ((value >> 32) as i32)
}

/// Why the global at position `i` cannot be split, if it is a 64-bit global that cannot.
pub open spec fn global_fault(globals: Seq<Global>, exports: Seq<ExportView>, i: int) -> Option<
    InvalidInput,
> {
    let global = globals[i];
    if global.ty != ValType::I64 {
        None
    } else if exports_item(exports, ExportItem::Global(GlobalId { index: i as usize })) {
        Some(InvalidInput::ExportedGlobal)
    } else {
        match global.kind {
            GlobalKind::Import(_) => Some(InvalidInput::ImportedGlobal),
            GlobalKind::Local(Const::Global(_)) => Some(InvalidInput::GlobalFromGlobal),
            GlobalKind::Local(Const::Value(Value::I64(_))) => None,
            GlobalKind::Local(Const::Value(_)) => Some(InvalidInput::GlobalTypeMismatch),
        }
    }
}

/// The number of 64-bit globals among the first `n`.
pub open spec fn i64_globals_before(globals: Seq<Global>, n: int) -> nat
    decreases n,
{
    if n <= 0 {
        0
    } else {
        i64_globals_before(globals, n - 1) + if globals[n - 1].ty == ValType::I64 {
            1nat
        } else {
            0nat
        }
    }
}

/// The literal that initializes the global, where it is a 64-bit literal.
pub open spec fn i64_init(global: Global) -> i64 {
    match global.kind {
        GlobalKind::Local(Const::Value(Value::I64(v))) => v,
        _ => 0,
    }
}

/// A 32-bit global defined in the module with the given mutability and literal.
pub open spec fn half_global(mutable: bool, value: i32) -> Global {
    Global { ty: ValType::I32, mutable, kind: GlobalKind::Local(Const::Value(Value::I32(value))) }
}

/// The pair of globals that replaces the 64-bit global at position `i` of a table that held
/// `globals` before any was split.
pub open spec fn halves_of_global(globals: Seq<Global>, i: int) -> Replace<GlobalId> {
    let low = globals.len() + 2 * i64_globals_before(globals, i);
    Replace { low: GlobalId { index: low as usize }, high: GlobalId { index: (low + 1) as usize } }
}

/// What a table that held `before` holds once every 64-bit global among the first `n` is
/// split: the old globals, then a low and a high half for each of those, in order.
pub open spec fn globals_split(before: Seq<Global>, n: int) -> Seq<Global>
    decreases n,
{
    if n <= 0 {
        before
    } else {
        let earlier = globals_split(before, n - 1);
        let global = before[n - 1];
        if global.ty == ValType::I64 {
            earlier.push(half_global(global.mutable, low_half(i64_init(global)))).push(
                half_global(global.mutable, high_half(i64_init(global))),
            )
        } else {
            earlier
        }
    }
}

/// The map from each 64-bit global among the first `n` to the pair that replaces it.
pub open spec fn global_halves(before: Seq<Global>, n: int) -> Map<usize, Replace<GlobalId>> {
    Map::new(
        |k: usize| k < n && k < before.len() && before[k as int].ty == ValType::I64,
        |k: usize| halves_of_global(before, k as int),
    )
}

/// Whether `fault` is what the first faulty global among the first `n` suffers from.
pub open spec fn first_global_fault(
    globals: Seq<Global>,
    exports: Seq<ExportView>,
    n: int,
    fault: InvalidInput,
) -> bool {
    exists|i: int|
        0 <= i < n && #[trigger] global_fault(globals, exports, i) == Some(fault) && forall|j: int|
            0 <= j < i ==> global_fault(globals, exports, j) is None
}

/// Whether no global among the first `n` is faulty.
pub open spec fn no_global_fault(globals: Seq<Global>, exports: Seq<ExportView>, n: int) -> bool {
    forall|i: int| 0 <= i < n ==> global_fault(globals, exports, i) is None
}

/// What the analysis records for the two phases that follow it.
pub struct Analysis {
    /// Each split global, by position, with the pair that replaces it.
    pub globals: HashMap<usize, Replace<GlobalId>>,
    /// Each split argument, by the position of its local, with the pair that replaces it.
    pub arguments: HashMap<usize, Replace<LocalId>>,
    /// Each function, by position, with the type it had before.
    pub old_function_types: HashMap<usize, TypeId>,
    /// Each rewritten type, by position, with the type that replaces it.
    pub old_types_to_new: HashMap<usize, TypeId>,
}

impl Analysis {
    /// An analysis that has recorded nothing.
    pub fn new() -> (analysis: Analysis)
        ensures
            analysis.globals@ == Map::<usize, Replace<GlobalId>>::empty(),
            analysis.arguments@ == Map::<usize, Replace<LocalId>>::empty(),
            analysis.old_function_types@ == Map::<usize, TypeId>::empty(),
            analysis.old_types_to_new@ == Map::<usize, TypeId>::empty(),
    {
        Analysis {
            globals: HashMap::new(),
            arguments: HashMap::new(),
            old_function_types: HashMap::new(),
            old_types_to_new: HashMap::new(),
        }
    }

    /// Splits all `i64` globals in a module to two `i32` halves, recording which is for the
    /// high bits and which is for the low bits.
    ///
    /// Fails on the first 64-bit global, in table order, that is exported, imported,
    /// initialized from another global or initialized with a literal of another type. On
    /// success the table holds its old globals followed by the two halves of each 64-bit
    /// global, in order, and exactly the 64-bit globals are recorded, each with its halves.
    pub fn split_globals(&mut self, globals: &mut ModuleGlobals, exports: &ModuleExports) -> (result:
        Result<(), Error>)
        ensures
            final(self).arguments == old(self).arguments,
            final(self).old_function_types == old(self).old_function_types,
            final(self).old_types_to_new == old(self).old_types_to_new,
            match result {
                Ok(()) => {
                    &&& no_global_fault(old(globals)@, exports@, old(globals)@.len() as int)
                    &&& final(globals)@ == globals_split(old(globals)@, old(globals)@.len() as int)
                    &&& final(self).globals@ == old(self).globals@.union_prefer_right(
                        global_halves(old(globals)@, old(globals)@.len() as int),
                    )
                },
                Err(Error::InvalidInput(fault)) => first_global_fault(
                    old(globals)@,
                    exports@,
                    old(globals)@.len() as int,
                    fault,
                ),
                Err(_) => false,
            },
    {
        let count = globals.len();
        let mut i: usize = 0;
        while i < count
            invariant
                i <= count,
                count == globals@.len(),
                globals@ == old(globals)@,
                no_global_fault(globals@, exports@, i as int),
            decreases count - i,
        {
            let global = globals.get(GlobalId { index: i });
            if global.ty == ValType::I64 {
                let fault = if exports.contains(ExportItem::Global(GlobalId { index: i })) {
                    Some(InvalidInput::ExportedGlobal)
                } else {
                    match global.kind {
                        GlobalKind::Import(_) => Some(InvalidInput::ImportedGlobal),
                        GlobalKind::Local(Const::Global(_)) => Some(InvalidInput::GlobalFromGlobal),
                        GlobalKind::Local(Const::Value(Value::I64(_))) => None,
                        GlobalKind::Local(Const::Value(_)) => Some(
                            InvalidInput::GlobalTypeMismatch,
                        ),
                    }
                };
                assert(fault == global_fault(globals@, exports@, i as int));
                if let Some(fault) = fault {
                    return Err(Error::InvalidInput(fault));
                }
            }
            i += 1;
        }
        let ghost before = globals@;
        let ghost recorded = self.globals@;
        let mut i: usize = 0;
        while i < count
            invariant
                i <= count,
                count == before.len(),
                before == old(globals)@,
                recorded == old(self).globals@,
                no_global_fault(before, exports@, count as int),
                globals@ == globals_split(before, i as int),
                self.globals@ == recorded.union_prefer_right(global_halves(before, i as int)),
                self.arguments == old(self).arguments,
                self.old_function_types == old(self).old_function_types,
                self.old_types_to_new == old(self).old_types_to_new,
            decreases count - i,
        {
            proof {
                lemma_globals_split_shape(before, i as int);
                lemma_i64_globals_monotone(before, count as int);
            }
            let global = globals.get(GlobalId { index: i });
            if global.ty == ValType::I64 {
                assert(global_fault(before, exports@, i as int) is None);
                let val = match global.kind {
                    GlobalKind::Local(Const::Value(Value::I64(n))) => n,
                    _ => 0,
                };
                let low = Const::Value(Value::I32(low_bits_of(val)));
                let high = Const::Value(Value::I32(high_bits_of(val)));
                let low = globals.add_local(ValType::I32, global.mutable, low);
                let high = globals.add_local(ValType::I32, global.mutable, high);
                self.globals.insert(i, Replace { low, high });
                assert(self.globals@ =~= recorded.union_prefer_right(
                    global_halves(before, i as int + 1),
                ));
            } else {
                assert(global_halves(before, i as int + 1) =~= global_halves(before, i as int));
            }
            i += 1;
        }
        Ok(())
    }
}

/// Splitting keeps the old globals in place and adds two globals for each 64-bit global.
pub proof fn lemma_globals_split_shape(before: Seq<Global>, n: int)
    requires
        0 <= n <= before.len(),
    ensures
        globals_split(before, n).len() == before.len() + 2 * i64_globals_before(before, n),
        forall|j: int| 0 <= j < before.len() ==> globals_split(before, n)[j] == before[j],
    decreases n,
{
    if n > 0 {
        lemma_globals_split_shape(before, n - 1);
    }
}

/// The count of 64-bit globals before a position grows with the position.
pub proof fn lemma_i64_globals_monotone(globals: Seq<Global>, n: int)
    ensures
        forall|k: int| k <= n ==> i64_globals_before(globals, k) <= i64_globals_before(globals, n),
    decreases n,
{
    if n > 0 {
        lemma_i64_globals_monotone(globals, n - 1);
    }
}

} // verus!

verus! {

/// What the analysis reads of a function: its type, its argument locals, and whether it is
/// defined in the module.
pub struct Signature {
    pub ty: TypeId,
    pub args: Seq<LocalId>,
    pub local: bool,
}

/// What the analysis reads of `func`.
pub open spec fn signature_of(func: Function) -> Signature {
    match func.kind {
        FunctionKind::Import(i) => Signature { ty: i.ty, args: Seq::empty(), local: false },
        FunctionKind::Local(l) => Signature { ty: l.type_id(), args: l.arg_list(), local: true },
    }
}

/// What the analysis reads of each function of the table.
pub open spec fn signatures_of(funcs: Seq<Function>) -> Seq<Signature> {
    Seq::new(funcs.len(), |i: int| signature_of(funcs[i]))
}

/// The number of 64-bit integers among the first `n` of `types`.
pub open spec fn i64_count(types: Seq<ValType>, n: int) -> nat
    decreases n,
{
    if n <= 0 {
        0
    } else {
        i64_count(types, n - 1) + if types[n - 1] == ValType::I64 {
            1nat
        } else {
            0nat
        }
    }
}

/// The first `n` parameter types with each 64-bit integer replaced by two 32-bit integers.
pub open spec fn split_params(params: Seq<ValType>, n: int) -> Seq<ValType>
    decreases n,
{
    if n <= 0 {
        Seq::empty()
    } else if params[n - 1] == ValType::I64 {
        split_params(params, n - 1).push(ValType::I32).push(ValType::I32)
    } else {
        split_params(params, n - 1).push(params[n - 1])
    }
}

/// The result types with a single 64-bit integer replaced by a 32-bit integer.
pub open spec fn split_results(results: Seq<ValType>) -> Seq<ValType> {
    if results.len() == 1 && results[0] == ValType::I64 {
        seq![ValType::I32]
    } else {
        results
    }
}

/// The signature that replaces `ty`.
pub open spec fn split_type(ty: TypeView) -> TypeView {
    TypeView {
        params: split_params(ty.params, ty.params.len() as int),
        results: split_results(ty.results),
    }
}

/// The pair of locals that replaces the parameter at position `k`, where the first fresh
/// local is at position `base` of the locals table.
pub open spec fn halves_of_param(params: Seq<ValType>, base: nat, k: int) -> Replace<LocalId> {
    let low = base + 2 * i64_count(params, k);
    Replace { low: LocalId { index: low as usize }, high: LocalId { index: (low + 1) as usize } }
}

/// The first `n` argument locals with each 64-bit argument replaced by its pair of locals.
pub open spec fn split_args(args: Seq<LocalId>, params: Seq<ValType>, base: nat, n: int) -> Seq<
    LocalId,
>
    decreases n,
{
    if n <= 0 {
        Seq::empty()
    } else if params[n - 1] == ValType::I64 {
        let halves = halves_of_param(params, base, n - 1);
        split_args(args, params, base, n - 1).push(halves.low).push(halves.high)
    } else {
        split_args(args, params, base, n - 1).push(args[n - 1])
    }
}

/// The record of split arguments once the first `n` arguments are handled.
pub open spec fn arguments_split(
    recorded: Map<usize, Replace<LocalId>>,
    args: Seq<LocalId>,
    params: Seq<ValType>,
    base: nat,
    n: int,
) -> Map<usize, Replace<LocalId>>
    decreases n,
{
    if n <= 0 {
        recorded
    } else if params[n - 1] == ValType::I64 {
        arguments_split(recorded, args, params, base, n - 1).insert(
            args[n - 1].index,
            halves_of_param(params, base, n - 1),
        )
    } else {
        arguments_split(recorded, args, params, base, n - 1)
    }
}

/// `count` unnamed 32-bit locals.
pub open spec fn fresh_locals(count: nat) -> Seq<LocalView> {
    Seq::new(count, |i: int| LocalView { ty: ValType::I32, name: None })
}

/// Why the function at position `i` cannot have its signature split, if its signature
/// mentions a 64-bit integer and cannot.
pub open spec fn function_fault(
    types: Seq<TypeView>,
    sigs: Seq<Signature>,
    exports: Seq<ExportView>,
    i: int,
) -> Option<InvalidInput> {
    let ty = types[sigs[i].ty.index as int];
    if !ty.mentions_i64() {
        None
    } else if exports_item(exports, ExportItem::Function(FunctionId { index: i as usize })) {
        Some(InvalidInput::ExportedFunction)
    } else if !sigs[i].local {
        Some(InvalidInput::ImportedFunction)
    } else if ty.results.len() > 1 {
        Some(InvalidInput::MultiValueResult)
    } else {
        None
    }
}

/// Whether `fault` is what the first faulty function suffers from.
pub open spec fn first_function_fault(
    types: Seq<TypeView>,
    sigs: Seq<Signature>,
    exports: Seq<ExportView>,
    fault: InvalidInput,
) -> bool {
    exists|i: int|
        0 <= i < sigs.len() && #[trigger] function_fault(types, sigs, exports, i) == Some(fault)
            && forall|j: int| 0 <= j < i ==> function_fault(types, sigs, exports, j) is None
}

/// Whether no function among the first `n` is faulty.
pub open spec fn no_function_fault(
    types: Seq<TypeView>,
    sigs: Seq<Signature>,
    exports: Seq<ExportView>,
    n: int,
) -> bool {
    forall|i: int| 0 <= i < n ==> function_fault(types, sigs, exports, i) is None
}

/// The tables and records that the splitting of signatures changes.
pub struct Split {
    pub types: Seq<TypeView>,
    pub locals: Seq<LocalView>,
    pub arguments: Map<usize, Replace<LocalId>>,
    pub old_function_types: Map<usize, TypeId>,
    pub old_types_to_new: Map<usize, TypeId>,
}

/// The tables and records once the first `n` functions are handled, from the state `start`
/// in which none was. `types` and `sigs` are the types and functions of the module before.
pub open spec fn signatures_split(
    types: Seq<TypeView>,
    sigs: Seq<Signature>,
    start: Split,
    n: int,
) -> Split
    decreases n,
{
    if n <= 0 {
        start
    } else {
        let earlier = signatures_split(types, sigs, start, n - 1);
        let sig = sigs[n - 1];
        let ty = types[sig.ty.index as int];
        let seen = earlier.old_function_types.insert((n - 1) as usize, sig.ty);
        if !ty.mentions_i64() {
            Split { old_function_types: seen, ..earlier }
        } else {
            Split {
                types: earlier.types.push(split_type(ty)),
                locals: earlier.locals + fresh_locals(
                    2 * i64_count(ty.params, ty.params.len() as int),
                ),
                arguments: arguments_split(
                    earlier.arguments,
                    sig.args,
                    ty.params,
                    earlier.locals.len(),
                    ty.params.len() as int,
                ),
                old_function_types: seen,
                old_types_to_new: earlier.old_types_to_new.insert(
                    sig.ty.index,
                    TypeId { index: earlier.types.len() as usize },
                ),
            }
        }
    }
}

/// Whether `after` is the function `before` with its signature split: the type that was
/// added last to the table `types`, and the arguments replaced, with fresh locals starting
/// at position `base`.
pub open spec fn function_split(
    before: Function,
    after: Function,
    params: Seq<ValType>,
    new_type: TypeId,
    base: nat,
) -> bool {
    &&& before.kind matches FunctionKind::Local(old_body)
    &&& after.kind matches FunctionKind::Local(new_body)
    &&& new_body.type_id() == new_type
    &&& new_body.arg_list() == split_args(
        old_body.arg_list(),
        params,
        base,
        params.len() as int,
    )
    &&& new_body.nodes() == old_body.nodes()
    &&& new_body.tag() == old_body.tag()
    &&& new_body.entry() == old_body.entry()
}

/// Whether the functions `after` are the functions `before` with the signatures of the
/// first `n` split where they mention a 64-bit integer.
pub open spec fn functions_split(
    types: Seq<TypeView>,
    before: Seq<Function>,
    after: Seq<Function>,
    start: Split,
    n: int,
) -> bool {
    &&& after.len() == before.len()
    &&& forall|i: int|
        0 <= i < before.len() ==> {
            let ty = types[before[i].type_id().index as int];
            let earlier = signatures_split(types, signatures_of(before), start, i);
            if i < n && ty.mentions_i64() {
                function_split(
                    before[i],
                    #[trigger] after[i],
                    ty.params,
                    TypeId { index: earlier.types.len() as usize },
                    earlier.locals.len(),
                )
            } else {
                after[i] == before[i]
            }
        }
}

} // verus!

verus! {

/// Whether every function has a type of the table and, where it is defined in the module,
/// as many argument locals as its type has parameters.
pub open spec fn signatures_ok(types: Seq<TypeView>, funcs: Seq<Function>) -> bool {
    forall|i: int|
        0 <= i < funcs.len() ==> {
            let sig = #[trigger] signature_of(funcs[i]);
            &&& sig.ty.index < types.len()
            &&& sig.local ==> sig.args.len() == types[sig.ty.index as int].params.len()
        }
}

/// Replaces each 64-bit argument by two fresh 32-bit locals, the low half before the high
/// half, and records the pair under the local it replaces. Returns the new argument locals
/// and the new parameter types.
pub fn split_arguments(
    args: &Vec<LocalId>,
    params: &Vec<ValType>,
    locals: &mut ModuleLocals,
    arguments: &mut HashMap<usize, Replace<LocalId>>,
) -> (split: (Vec<LocalId>, Vec<ValType>))
    requires
        args@.len() == params@.len(),
    ensures
        split.0@ == split_args(args@, params@, old(locals)@.len(), params@.len() as int),
        split.1@ == split_params(params@, params@.len() as int),
        final(locals)@ == old(locals)@ + fresh_locals(
            2 * i64_count(params@, params@.len() as int),
        ),
        final(arguments)@ == arguments_split(
            old(arguments)@,
            args@,
            params@,
            old(locals)@.len(),
            params@.len() as int,
        ),
{
    let ghost base = locals@.len();
    let mut new_args: Vec<LocalId> = Vec::new();
    let mut new_params: Vec<ValType> = Vec::new();
    let mut k: usize = 0;
    assert(locals@ =~= old(locals)@ + fresh_locals(0));
    while k < params.len()
        invariant
            k <= params@.len(),
            args@.len() == params@.len(),
            base == old(locals)@.len(),
            new_args@ == split_args(args@, params@, base, k as int),
            new_params@ == split_params(params@, k as int),
            locals@ == old(locals)@ + fresh_locals(2 * i64_count(params@, k as int)),
            arguments@ == arguments_split(old(arguments)@, args@, params@, base, k as int),
        decreases params@.len() - k,
    {
        let ty = params[k];
        if ty == ValType::I64 {
            let ghost count = i64_count(params@, k as int);
            let low = locals.add(ValType::I32);
            let high = locals.add(ValType::I32);
            new_args.push(low);
            new_args.push(high);
            new_params.push(ValType::I32);
            new_params.push(ValType::I32);
            arguments.insert(args[k].index, Replace { low, high });
            assert(locals@ =~= old(locals)@ + fresh_locals(2 * (count + 1)));
        } else {
            new_args.push(args[k]);
            new_params.push(ty);
        }
        k += 1;
    }
    (new_args, new_params)
}

impl Analysis {
    /// Fixes all function signatures to not have `i64` arguments.
    ///
    /// Arguments of `i64` become two `i32` arguments, and a single `i64` result becomes an
    /// `i32` result. Fails on the first function, in table order, whose signature mentions a
    /// 64-bit integer and that is exported, imported or has several results. On success every
    /// function is recorded with the type it had, and each function whose signature mentions
    /// a 64-bit integer has fresh argument locals and a fresh type.
    pub fn split_function_arguments(
        &mut self,
        types: &mut ModuleTypes,
        locals: &mut ModuleLocals,
        funcs: &mut ModuleFunctions,
        exports: &ModuleExports,
    ) -> (result: Result<(), Error>)
        requires
            signatures_ok(old(types)@, old(funcs)@),
        ensures
            final(self).globals == old(self).globals,
            match result {
                Ok(()) => {
                    let start = Split {
                        types: old(types)@,
                        locals: old(locals)@,
                        arguments: old(self).arguments@,
                        old_function_types: old(self).old_function_types@,
                        old_types_to_new: old(self).old_types_to_new@,
                    };
                    let end = signatures_split(
                        old(types)@,
                        signatures_of(old(funcs)@),
                        start,
                        old(funcs)@.len() as int,
                    );
                    &&& no_function_fault(
                        old(types)@,
                        signatures_of(old(funcs)@),
                        exports@,
                        old(funcs)@.len() as int,
                    )
                    &&& final(types)@ == end.types
                    &&& final(locals)@ == end.locals
                    &&& final(self).arguments@ == end.arguments
                    &&& final(self).old_function_types@ == end.old_function_types
                    &&& final(self).old_types_to_new@ == end.old_types_to_new
                    &&& functions_split(
                        old(types)@,
                        old(funcs)@,
                        final(funcs)@,
                        start,
                        old(funcs)@.len() as int,
                    )
                },
                Err(Error::InvalidInput(fault)) => first_function_fault(
                    old(types)@,
                    signatures_of(old(funcs)@),
                    exports@,
                    fault,
                ),
                Err(_) => false,
            },
    {
        let ghost types0 = types@;
        let ghost funcs0 = funcs@;
        let ghost sigs = signatures_of(funcs@);
        let ghost start = Split {
            types: types@,
            locals: locals@,
            arguments: self.arguments@,
            old_function_types: self.old_function_types@,
            old_types_to_new: self.old_types_to_new@,
        };
        let count = funcs.len();
        let mut i: usize = 0;
        while i < count
            invariant
                i <= count,
                count == funcs0.len(),
                types0 == old(types)@,
                funcs0 == old(funcs)@,
                sigs == signatures_of(funcs0),
                start == (Split {
                    types: old(types)@,
                    locals: old(locals)@,
                    arguments: old(self).arguments@,
                    old_function_types: old(self).old_function_types@,
                    old_types_to_new: old(self).old_types_to_new@,
                }),
                signatures_ok(types0, funcs0),
                no_function_fault(types0, sigs, exports@, i as int),
                types@ == signatures_split(types0, sigs, start, i as int).types,
                locals@ == signatures_split(types0, sigs, start, i as int).locals,
                self.arguments@ == signatures_split(types0, sigs, start, i as int).arguments,
                self.old_function_types@ == signatures_split(
                    types0,
                    sigs,
                    start,
                    i as int,
                ).old_function_types,
                self.old_types_to_new@ == signatures_split(
                    types0,
                    sigs,
                    start,
                    i as int,
                ).old_types_to_new,
                functions_split(types0, funcs0, funcs@, start, i as int),
                self.globals == old(self).globals,
            decreases count - i,
        {
            proof {
                lemma_split_keeps_types(types0, sigs, start, i as int);
            }
            let ghost earlier = signatures_split(types0, sigs, start, i as int);
            let ghost funcs_before = funcs@;
            assert(funcs@[i as int] == funcs0[i as int]);
            assert(signature_of(funcs0[i as int]) == sigs[i as int]);
            let ty_id = funcs.get(FunctionId { index: i }).ty();
            self.old_function_types.insert(i, ty_id);
            let ty = types.get(ty_id);
            if has_i64(ty.params()) || has_i64(ty.results()) {
                if exports.contains(ExportItem::Function(FunctionId { index: i })) {
                    assert(function_fault(types0, sigs, exports@, i as int) == Some(
                        InvalidInput::ExportedFunction,
                    ));
                    return Err(Error::InvalidInput(InvalidInput::ExportedFunction));
                }
                let params = copy_types(ty.params());
                let results = copy_types(ty.results());
                let func = funcs.get_mut(FunctionId { index: i });
                match &mut func.kind {
                    FunctionKind::Local(local) => {
                        if results.len() > 1 {
                            assert(function_fault(types0, sigs, exports@, i as int) == Some(
                                InvalidInput::MultiValueResult,
                            ));
                            return Err(Error::InvalidInput(InvalidInput::MultiValueResult));
                        }
                        let (new_args, new_params) = split_arguments(
                            local.args(),
                            &params,
                            locals,
                            &mut self.arguments,
                        );
                        local.set_args(new_args);
                        let new_results = if results.len() == 1 && results[0] == ValType::I64 {
                            let mut single: Vec<ValType> = Vec::new();
                            single.push(ValType::I32);
                            single
                        } else {
                            results
                        };
                        let new_ty = types.add(new_params, new_results);
                        local.set_ty(new_ty);
                        self.old_types_to_new.insert(ty_id.index, new_ty);
                    },
                    FunctionKind::Import(_) => {
                        assert(function_fault(types0, sigs, exports@, i as int) == Some(
                            InvalidInput::ImportedFunction,
                        ));
                        return Err(Error::InvalidInput(InvalidInput::ImportedFunction));
                    },
                }
                assert(functions_split(types0, funcs0, funcs@, start, i as int + 1));
            } else {
                assert(functions_split(types0, funcs0, funcs@, start, i as int + 1));
            }
            i += 1;
        }
        Ok(())
    }
}

/// Splitting signatures keeps the old types and locals in place.
pub proof fn lemma_split_keeps_types(
    types: Seq<TypeView>,
    sigs: Seq<Signature>,
    start: Split,
    n: int,
)
    requires
        0 <= n <= sigs.len(),
    ensures
        start.types.len() <= signatures_split(types, sigs, start, n).types.len(),
        forall|k: int|
            0 <= k < start.types.len() ==> signatures_split(types, sigs, start, n).types[k]
                == start.types[k],
        start.locals.len() <= signatures_split(types, sigs, start, n).locals.len(),
        forall|k: int|
            0 <= k < start.locals.len() ==> signatures_split(types, sigs, start, n).locals[k]
                == start.locals[k],
    decreases n,
{
    if n > 0 {
        lemma_split_keeps_types(types, sigs, start, n - 1);
    }
}

} // verus!
