//! Value types and function signatures.

use vstd::prelude::*;

verus! {

/// A WebAssembly value type.
#[derive(Clone, Copy, Debug, PartialEq, Eq, Hash, Structural)]
pub enum ValType {
    I32,
    I64,
    F32,
    F64,
    V128,
}

/// The identifier of a function signature in a module's type table.
#[derive(Clone, Copy, Debug, PartialEq, Eq, Hash, Structural)]
pub struct TypeId {
    pub index: usize,
}

/// A function signature: ordered parameter types and ordered result types.
#[derive(Debug)]
pub struct Type {
    params: Vec<ValType>,
    results: Vec<ValType>,
}

/// The mathematical value of a [`Type`].
pub struct TypeView {
    pub params: Seq<ValType>,
    pub results: Seq<ValType>,
}

impl View for Type {
    type V = TypeView;

    closed spec fn view(&self) -> TypeView {
        TypeView { params: self.params@, results: self.results@ }
    }
}

/// Whether the 64-bit integer type occurs in `types`.
pub open spec fn mentions_i64(types: Seq<ValType>) -> bool {
    exists|i: int| 0 <= i < types.len() && types[i] == ValType::I64
}

/// Decides whether the 64-bit integer type occurs in `types`.
pub fn has_i64(types: &Vec<ValType>) -> (found: bool)
    ensures
        found == mentions_i64(types@),
{
    let mut i: usize = 0;
    while i < types.len()
        invariant
            i <= types.len(),
            forall|j: int| 0 <= j < i ==> types@[j] != ValType::I64,
        decreases types.len() - i,
    {
        if types[i] == ValType::I64 {
            return true;
        }
        i += 1;
    }
    false
}

/// Copies a list of value types.
pub fn copy_types(types: &Vec<ValType>) -> (copy: Vec<ValType>)
    ensures
        copy@ == types@,
{
    let mut copy: Vec<ValType> = Vec::new();
    let mut i: usize = 0;
    while i < types.len()
        invariant
            i <= types.len(),
            copy@ == types@.take(i as int),
        decreases types.len() - i,
    {
        copy.push(types[i]);
        i += 1;
    }
    copy
}

impl TypeView {
    /// Whether the signature takes or returns a 64-bit integer.
    pub open spec fn mentions_i64(self) -> bool {
        mentions_i64(self.params) || mentions_i64(self.results)
    }
}

impl Type {
    /// Creates a signature from its parameter and result types.
    pub fn new(params: Vec<ValType>, results: Vec<ValType>) -> (ty: Type)
        ensures
            ty@.params == params@,
            ty@.results == results@,
    {
        Type { params, results }
    }

    /// The parameter types, in order.
    pub fn params(&self) -> (params: &Vec<ValType>)
        ensures
            params@ == self@.params,
    {
        &self.params
    }

    /// The result types, in order.
    pub fn results(&self) -> (results: &Vec<ValType>)
        ensures
            results@ == self@.results,
    {
        &self.results
    }
}

} // verus!
