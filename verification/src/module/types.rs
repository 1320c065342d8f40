//! The function signatures of a module.

use vstd::prelude::*;
use crate::ty::{Type, TypeId, TypeView, ValType};

verus! {

/// The table of every function signature of the module.
#[derive(Debug)]
pub struct ModuleTypes {
    arena: Vec<Type>,
}

impl View for ModuleTypes {
    type V = Seq<TypeView>;

    closed spec fn view(&self) -> Seq<TypeView> {
        Seq::new(self.arena@.len(), |i: int| self.arena@[i]@)
    }
}

impl ModuleTypes {
    /// An empty table.
    pub fn new() -> (types: ModuleTypes)
        ensures
            types@.len() == 0,
    {
        ModuleTypes { arena: Vec::new() }
    }

    /// The number of signatures.
    pub fn len(&self) -> (len: usize)
        ensures
            len == self@.len(),
    {
        self.arena.len()
    }

    /// Adds a signature under a fresh identifier.
    pub fn add(&mut self, params: Vec<ValType>, results: Vec<ValType>) -> (id: TypeId)
        ensures
            final(self)@ == old(self)@.push(TypeView { params: params@, results: results@ }),
            id.index == old(self)@.len(),
    {
        let index = self.arena.len();
        self.arena.push(Type::new(params, results));
        assert(self@ =~= old(self)@.push(TypeView { params: params@, results: results@ }));
        TypeId { index }
    }

    /// The signature that `id` names.
    pub fn get(&self, id: TypeId) -> (ty: &Type)
        requires
            id.index < self@.len(),
        ensures
            ty@ == self@[id.index as int],
    {
        &self.arena[id.index]
    }
}

} // verus!
