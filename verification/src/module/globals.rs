//! The globals of a module.

use vstd::prelude::*;
use crate::const_value::Const;
use crate::ir::node::GlobalId;
use crate::module::imports::ImportId;
use crate::ty::ValType;

verus! {

/// Where a global comes from.
#[derive(Clone, Copy, Debug, PartialEq, Eq, Structural)]
pub enum GlobalKind {
    /// The global is imported.
    Import(ImportId),
    /// The global is defined in the module, with this initializer.
    Local(Const),
}

/// A global: a module-scoped variable slot.
#[derive(Clone, Copy, Debug, PartialEq, Eq, Structural)]
pub struct Global {
    /// The type of the global.
    pub ty: ValType,
    /// Whether the global can be written.
    pub mutable: bool,
    /// Where the global comes from.
    pub kind: GlobalKind,
}

/// The table of every global of the module.
#[derive(Debug)]
pub struct ModuleGlobals {
    arena: Vec<Global>,
}

impl View for ModuleGlobals {
    type V = Seq<Global>;

    closed spec fn view(&self) -> Seq<Global> {
        self.arena@
    }
}

impl ModuleGlobals {
    /// An empty table.
    pub fn new() -> (globals: ModuleGlobals)
        ensures
            globals@.len() == 0,
    {
        ModuleGlobals { arena: Vec::new() }
    }

    /// The number of globals.
    pub fn len(&self) -> (len: usize)
        ensures
            len == self@.len(),
    {
        self.arena.len()
    }

    /// Adds a global that is imported.
    pub fn add_import(&mut self, ty: ValType, mutable: bool, import: ImportId) -> (id: GlobalId)
        ensures
            final(self)@ == old(self)@.push(Global { ty, mutable, kind: GlobalKind::Import(import) }),
            id.index == old(self)@.len(),
    {
        let index = self.arena.len();
        self.arena.push(Global { ty, mutable, kind: GlobalKind::Import(import) });
        GlobalId { index }
    }

    /// Adds a global that the module defines, with its initializer.
    pub fn add_local(&mut self, ty: ValType, mutable: bool, init: Const) -> (id: GlobalId)
        ensures
            final(self)@ == old(self)@.push(Global { ty, mutable, kind: GlobalKind::Local(init) }),
            id.index == old(self)@.len(),
    {
        let index = self.arena.len();
        self.arena.push(Global { ty, mutable, kind: GlobalKind::Local(init) });
        GlobalId { index }
    }

    /// The global that `id` names.
    pub fn get(&self, id: GlobalId) -> (global: Global)
        requires
            id.index < self@.len(),
        ensures
            global == self@[id.index as int],
    {
        self.arena[id.index]
    }
}

} // verus!
