//! Functions of a module.

pub mod local_function;

use vstd::prelude::*;
use crate::ir::node::{FunctionId, LocalId};
use crate::module::functions::local_function::{LocalFunction, locals_in_range};
use crate::module::imports::ImportId;
use crate::module::locals::{LocalView, ModuleLocals};
use crate::module::types::ModuleTypes;
use crate::ty::{TypeId, TypeView, ValType};

verus! {

/// Whether there is one argument local for each parameter, of the parameter's type.
pub open spec fn args_match(args: Seq<LocalId>, params: Seq<ValType>, locals: Seq<LocalView>) -> bool {
    &&& args.len() == params.len()
    &&& forall|k: int|
        0 <= k < args.len() ==> (#[trigger] args[k]).index < locals.len()
            && locals[args[k].index as int].ty == params[k]
}

/// A function that the module imports: only its signature is known.
#[derive(Clone, Copy, Debug, PartialEq, Eq, Structural)]
pub struct ImportedFunction {
    /// The import that provides the function.
    pub import: ImportId,
    /// The function's type.
    pub ty: TypeId,
}

/// The two kinds of function.
#[derive(Debug)]
pub enum FunctionKind {
    /// An imported function.
    Import(ImportedFunction),
    /// A function defined in the module.
    Local(LocalFunction),
}

/// A function of the module.
#[derive(Debug)]
pub struct Function {
    /// Whether the function is imported or defined here, with what is known of it.
    pub kind: FunctionKind,
}

impl Function {
    /// The function's type.
    pub open spec fn type_id(&self) -> TypeId {
        match self.kind {
            FunctionKind::Import(i) => i.ty,
            FunctionKind::Local(l) => l.type_id(),
        }
    }

    /// Whether the function's type is one of `types` and, where the function is defined
    /// here, its body is well-formed and accesses only locals of `locals`, and its
    /// arguments are locals of the types of its parameters.
    pub open spec fn ok(&self, types: Seq<TypeView>, locals: Seq<LocalView>) -> bool {
        &&& self.type_id().index < types.len()
        &&& self.kind matches FunctionKind::Local(l) ==> {
            &&& l.wf()
            &&& locals_in_range(l.nodes(), locals.len())
            &&& args_match(l.arg_list(), types[self.type_id().index as int].params, locals)
        }
    }

    /// Decides [`ok`](Self::ok).
    pub fn is_ok(&self, types: &ModuleTypes, locals: &ModuleLocals) -> (ok: bool)
        ensures
            ok == self.ok(types@, locals@),
    {
        let ty = self.ty();
        if ty.index >= types.len() {
            return false;
        }
        match &self.kind {
            FunctionKind::Import(_) => true,
            FunctionKind::Local(body) => {
                if !body.is_well_formed() || !body.locals_within(locals.len()) {
                    return false;
                }
                let params = types.get(ty).params();
                let args = body.args();
                if args.len() != params.len() {
                    return false;
                }
                let mut k: usize = 0;
                while k < args.len()
                    invariant
                        k <= args@.len(),
                        args@.len() == params@.len(),
                        args@ == body.arg_list(),
                        ty.index < types@.len(),
                        ty == self.type_id(),
                        self.kind == FunctionKind::Local(*body),
                        params@ == types@[ty.index as int].params,
                        forall|j: int|
                            0 <= j < k ==> (#[trigger] args@[j]).index < locals@.len()
                                && locals@[args@[j].index as int].ty == params@[j],
                    decreases args@.len() - k,
                {
                    let arg = args[k];
                    assert(arg == body.arg_list()[k as int]);
                    if arg.index >= locals.len() {
                        return false;
                    }
                    if locals.get(arg).ty() != params[k] {
                        return false;
                    }
                    k += 1;
                }
                true
            },
        }
    }

    /// The function's type.
    pub fn ty(&self) -> (ty: TypeId)
        ensures
            ty == self.type_id(),
    {
        match &self.kind {
            FunctionKind::Import(i) => i.ty,
            FunctionKind::Local(l) => l.ty(),
        }
    }
}

/// The table of every function of the module.
#[derive(Debug)]
pub struct ModuleFunctions {
    arena: Vec<Function>,
}

impl View for ModuleFunctions {
    type V = Seq<Function>;

    closed spec fn view(&self) -> Seq<Function> {
        self.arena@
    }
}

impl ModuleFunctions {
    /// An empty table.
    pub fn new() -> (funcs: ModuleFunctions)
        ensures
            funcs@.len() == 0,
    {
        ModuleFunctions { arena: Vec::new() }
    }

    /// The number of functions.
    pub fn len(&self) -> (len: usize)
        ensures
            len == self@.len(),
    {
        self.arena.len()
    }

    /// Adds an imported function.
    pub fn add_import(&mut self, ty: TypeId, import: ImportId) -> (id: FunctionId)
        ensures
            final(self)@.len() == old(self)@.len() + 1,
            final(self)@.take(old(self)@.len() as int) == old(self)@,
            final(self)@.last().kind == FunctionKind::Import(ImportedFunction { import, ty }),
            id.index == old(self)@.len(),
    {
        let index = self.arena.len();
        self.arena.push(Function { kind: FunctionKind::Import(ImportedFunction { import, ty }) });
        assert(self@.take(index as int) =~= old(self)@);
        FunctionId { index }
    }

    /// Adds a function defined in the module.
    pub fn add_local(&mut self, func: LocalFunction) -> (id: FunctionId)
        ensures
            final(self)@.len() == old(self)@.len() + 1,
            final(self)@.take(old(self)@.len() as int) == old(self)@,
            final(self)@.last().kind == FunctionKind::Local(func),
            id.index == old(self)@.len(),
    {
        let index = self.arena.len();
        self.arena.push(Function { kind: FunctionKind::Local(func) });
        assert(self@.take(index as int) =~= old(self)@);
        FunctionId { index }
    }

    /// The function that `id` names.
    pub fn get(&self, id: FunctionId) -> (func: &Function)
        requires
            id.index < self@.len(),
        ensures
            *func == self@[id.index as int],
    {
        &self.arena[id.index]
    }

    /// The function that `id` names, to be changed in place.
    pub fn get_mut(&mut self, id: FunctionId) -> (func: &mut Function)
        requires
            id.index < old(self)@.len(),
        ensures
            *func == old(self)@[id.index as int],
            final(self)@ == old(self)@.update(id.index as int, *final(func)),
    {
        &mut self.arena[id.index]
    }
}

} // verus!
