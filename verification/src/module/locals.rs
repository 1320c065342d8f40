//! The locals of a module.

use vstd::prelude::*;
use crate::ir::node::LocalId;
use crate::ty::ValType;

verus! {

/// A local: a function-scoped variable slot, parameters included.
#[derive(Debug)]
pub struct Local {
    ty: ValType,
    name: Option<String>,
}

/// The mathematical value of a [`Local`].
pub struct LocalView {
    pub ty: ValType,
    pub name: Option<Seq<char>>,
}

impl View for Local {
    type V = LocalView;

    closed spec fn view(&self) -> LocalView {
        LocalView {
            ty: self.ty,
            name: match self.name {
                Some(n) => Some(n@),
                None => None,
            },
        }
    }
}

impl Local {
    /// The type of the local.
    pub fn ty(&self) -> (ty: ValType)
        ensures
            ty == self@.ty,
    {
        self.ty
    }

    /// The name of the local, if it has one.
    pub fn name(&self) -> (name: Option<&String>)
        ensures
            name is Some == self@.name is Some,
            name is Some ==> name->0@ == self@.name->0,
    {
        self.name.as_ref()
    }
}

/// The table of every local of the module.
#[derive(Debug)]
pub struct ModuleLocals {
    arena: Vec<Local>,
}

impl View for ModuleLocals {
    type V = Seq<LocalView>;

    closed spec fn view(&self) -> Seq<LocalView> {
        Seq::new(self.arena@.len(), |i: int| self.arena@[i]@)
    }
}

impl ModuleLocals {
    /// An empty table.
    pub fn new() -> (locals: ModuleLocals)
        ensures
            locals@.len() == 0,
    {
        ModuleLocals { arena: Vec::new() }
    }

    /// The number of locals.
    pub fn len(&self) -> (len: usize)
        ensures
            len == self@.len(),
    {
        self.arena.len()
    }

    /// Adds an unnamed local of the given type.
    pub fn add(&mut self, ty: ValType) -> (id: LocalId)
        ensures
            final(self)@ == old(self)@.push(LocalView { ty, name: None }),
            id.index == old(self)@.len(),
    {
        let index = self.arena.len();
        self.arena.push(Local { ty, name: None });
        assert(self@ =~= old(self)@.push(LocalView { ty, name: None }));
        LocalId { index }
    }

    /// The local that `id` names.
    pub fn get(&self, id: LocalId) -> (local: &Local)
        requires
            id.index < self@.len(),
        ensures
            local@ == self@[id.index as int],
    {
        &self.arena[id.index]
    }

    /// Names the local that `id` names.
    pub fn set_name(&mut self, id: LocalId, name: String)
        requires
            id.index < old(self)@.len(),
        ensures
            final(self)@ == old(self)@.update(
                id.index as int,
                LocalView { ty: old(self)@[id.index as int].ty, name: Some(name@) },
            ),
    {
        let ty = self.arena[id.index].ty;
        self.arena.set(id.index, Local { ty, name: Some(name) });
        assert(self@ =~= old(self)@.update(
            id.index as int,
            LocalView { ty: old(self)@[id.index as int].ty, name: Some(name@) },
        ));
    }
}

} // verus!
