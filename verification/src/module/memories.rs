//! The memories of a module.

use vstd::prelude::*;
use crate::ir::node::MemoryId;
use crate::module::imports::ImportId;

verus! {

/// A linear memory.
#[derive(Clone, Copy, Debug, PartialEq, Eq, Structural)]
pub struct Memory {
    /// Whether the memory is shared between threads.
    pub shared: bool,
    /// The initial size, in pages.
    pub initial: u32,
    /// The greatest size, in pages, if there is a limit.
    pub maximum: Option<u32>,
    /// The import that provides the memory, if it is imported.
    pub import: Option<ImportId>,
}

/// The table of every memory of the module.
#[derive(Debug)]
pub struct ModuleMemories {
    arena: Vec<Memory>,
}

impl View for ModuleMemories {
    type V = Seq<Memory>;

    closed spec fn view(&self) -> Seq<Memory> {
        self.arena@
    }
}

impl ModuleMemories {
    /// An empty table.
    pub fn new() -> (memories: ModuleMemories)
        ensures
            memories@.len() == 0,
    {
        ModuleMemories { arena: Vec::new() }
    }

    /// The number of memories.
    pub fn len(&self) -> (len: usize)
        ensures
            len == self@.len(),
    {
        self.arena.len()
    }

    /// Adds a memory that the module defines.
    pub fn add_local(&mut self, shared: bool, initial: u32, maximum: Option<u32>) -> (id: MemoryId)
        ensures
            final(self)@ == old(self)@.push(Memory { shared, initial, maximum, import: None }),
            id.index == old(self)@.len(),
    {
        let index = self.arena.len();
        self.arena.push(Memory { shared, initial, maximum, import: None });
        MemoryId { index }
    }

    /// Adds a memory that is imported.
    pub fn add_import(
        &mut self,
        shared: bool,
        initial: u32,
        maximum: Option<u32>,
        import: ImportId,
    ) -> (id: MemoryId)
        ensures
            final(self)@ == old(self)@.push(
                Memory { shared, initial, maximum, import: Some(import) },
            ),
            id.index == old(self)@.len(),
    {
        let index = self.arena.len();
        self.arena.push(Memory { shared, initial, maximum, import: Some(import) });
        MemoryId { index }
    }

    /// The memory that `id` names.
    pub fn get(&self, id: MemoryId) -> (memory: Memory)
        requires
            id.index < self@.len(),
        ensures
            memory == self@[id.index as int],
    {
        self.arena[id.index]
    }

    /// The first memory of the table, if there is one.
    pub fn first(&self) -> (id: Option<MemoryId>)
        ensures
            id == (if self@.len() == 0 {
                None
            } else {
                Some(MemoryId { index: 0 })
            }),
    {
        if self.arena.len() == 0 {
            None
        } else {
            Some(MemoryId { index: 0 })
        }
    }
}

} // verus!
