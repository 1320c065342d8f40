//! The exports of a module.

use vstd::prelude::*;
use crate::ir::node::{FunctionId, GlobalId, MemoryId, TableId};

verus! {

/// What an export makes visible.
#[derive(Clone, Copy, Debug, PartialEq, Eq, Structural)]
pub enum ExportItem {
    Function(FunctionId),
    Table(TableId),
    Memory(MemoryId),
    Global(GlobalId),
}

/// An export: a name and the entity it makes visible.
#[derive(Debug)]
pub struct Export {
    /// The name under which the entity is exported.
    pub name: String,
    /// The exported entity.
    pub item: ExportItem,
}

/// The mathematical value of an [`Export`].
pub struct ExportView {
    pub name: Seq<char>,
    pub item: ExportItem,
}

impl View for Export {
    type V = ExportView;

    open spec fn view(&self) -> ExportView {
        ExportView { name: self.name@, item: self.item }
    }
}

/// Whether one of `exports` makes `item` visible.
pub open spec fn exports_item(exports: Seq<ExportView>, item: ExportItem) -> bool {
    exists|i: int| 0 <= i < exports.len() && (#[trigger] exports[i]).item == item
}

/// The table of every export of the module.
#[derive(Debug)]
pub struct ModuleExports {
    arena: Vec<Export>,
}

impl View for ModuleExports {
    type V = Seq<ExportView>;

    closed spec fn view(&self) -> Seq<ExportView> {
        Seq::new(self.arena@.len(), |i: int| self.arena@[i]@)
    }
}

impl ModuleExports {
    /// An empty table.
    pub fn new() -> (exports: ModuleExports)
        ensures
            exports@.len() == 0,
    {
        ModuleExports { arena: Vec::new() }
    }

    /// The number of exports.
    pub fn len(&self) -> (len: usize)
        ensures
            len == self@.len(),
    {
        self.arena.len()
    }

    /// Exports `item` under `name`.
    pub fn add(&mut self, name: String, item: ExportItem)
        ensures
            final(self)@ == old(self)@.push(ExportView { name: name@, item }),
    {
        self.arena.push(Export { name, item });
        assert(self@ =~= old(self)@.push(ExportView { name: name@, item }));
    }

    /// The export at position `i`.
    pub fn get(&self, i: usize) -> (export: &Export)
        requires
            i < self@.len(),
        ensures
            export@ == self@[i as int],
    {
        &self.arena[i]
    }

    /// Whether `item` is exported.
    pub fn contains(&self, item: ExportItem) -> (found: bool)
        ensures
            found == exports_item(self@, item),
    {
        let mut i: usize = 0;
        while i < self.arena.len()
            invariant
                i <= self.arena.len(),
                forall|j: int| 0 <= j < i ==> (#[trigger] self@[j]).item != item,
            decreases self.arena.len() - i,
        {
            if self.arena[i].item == item {
                assert(self@[i as int].item == item);
                return true;
            }
            i += 1;
        }
        false
    }
}

} // verus!
