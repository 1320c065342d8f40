//! A module and its tables.

pub mod config;
pub mod exports;
pub mod functions;
pub mod globals;
pub mod imports;
pub mod locals;
pub mod memories;
pub mod types;

use vstd::prelude::*;
use crate::ir::node::FunctionId;
use crate::module::config::ModuleConfig;
use crate::module::exports::ModuleExports;
use crate::module::functions::ModuleFunctions;
use crate::module::globals::ModuleGlobals;
use crate::module::locals::ModuleLocals;
use crate::module::memories::ModuleMemories;
use crate::module::types::ModuleTypes;

verus! {

/// A module: its tables of types, locals, globals, memories, functions and exports.
#[derive(Debug)]
pub struct Module {
    /// The function signatures.
    pub types: ModuleTypes,
    /// The locals of every function.
    pub locals: ModuleLocals,
    /// The globals.
    pub globals: ModuleGlobals,
    /// The memories.
    pub memories: ModuleMemories,
    /// The functions.
    pub funcs: ModuleFunctions,
    /// The exports.
    pub exports: ModuleExports,
    /// The settings.
    pub config: ModuleConfig,
}

impl Module {
    /// Well-formedness: every function has a type of the type table and one argument
    /// local of the right type for each parameter, and every identifier in a function body
    /// names a node of that body or a local of the module.
    pub open spec fn wf(&self) -> bool {
        forall|i: int|
            0 <= i < self.funcs@.len() ==> (#[trigger] self.funcs@[i]).ok(self.types@, self.locals@)
    }

    /// Decides whether the module is well-formed.
    pub fn is_well_formed(&self) -> (ok: bool)
        ensures
            ok == self.wf(),
    {
        let count = self.funcs.len();
        let mut i: usize = 0;
        while i < count
            invariant
                i <= count,
                count == self.funcs@.len(),
                forall|j: int|
                    0 <= j < i ==> (#[trigger] self.funcs@[j]).ok(self.types@, self.locals@),
            decreases count - i,
        {
            if !self.funcs.get(FunctionId { index: i }).is_ok(&self.types, &self.locals) {
                return false;
            }
            i += 1;
        }
        true
    }

    /// An empty module with the given settings.
    pub fn new(config: ModuleConfig) -> (module: Module)
        ensures
            module.wf(),
            module.types@.len() == 0,
            module.locals@.len() == 0,
            module.globals@.len() == 0,
            module.memories@.len() == 0,
            module.funcs@.len() == 0,
            module.exports@.len() == 0,
            module.config == config,
    {
        Module {
            types: ModuleTypes::new(),
            locals: ModuleLocals::new(),
            globals: ModuleGlobals::new(),
            memories: ModuleMemories::new(),
            funcs: ModuleFunctions::new(),
            exports: ModuleExports::new(),
            config,
        }
    }
}

} // verus!
