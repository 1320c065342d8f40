//! Errors of the passes over a module.

use vstd::prelude::*;

verus! {

/// A use of 64-bit integers that the lowering refuses, found before any body is rewritten.
#[derive(Clone, Copy, Debug, PartialEq, Eq, Structural)]
pub enum InvalidInput {
    /// A 64-bit global is exported.
    ExportedGlobal,
    /// A 64-bit global is imported.
    ImportedGlobal,
    /// A 64-bit global is initialized with the value of another global.
    GlobalFromGlobal,
    /// A 64-bit global is initialized with a literal of another type.
    GlobalTypeMismatch,
    /// A function that takes or returns a 64-bit integer is exported.
    ExportedFunction,
    /// A function that takes or returns a 64-bit integer is imported.
    ImportedFunction,
    /// A function that takes or returns a 64-bit integer has several results.
    MultiValueResult,
}

/// A form that the lowering recognizes and cannot rewrite yet.
#[derive(Clone, Copy, Debug, PartialEq, Eq, Structural)]
pub enum Unimplemented {
    /// A 64-bit arithmetic, shift, rotate or relational operator.
    Binop,
    /// A conversion between a 64-bit integer and a float, or an operator that the
    /// canonicalization should have removed.
    Unop,
    /// A 64-bit load that is atomic or narrow.
    Load,
    /// A 64-bit store that is atomic or narrow.
    Store,
    /// A memory access whose offset leaves no room for the second word.
    MemoryOffset,
    /// A call that takes or returns a 64-bit integer.
    Call,
    /// An indirect call that takes or returns a 64-bit integer.
    CallIndirect,
    /// A `select` between 64-bit integers.
    Select,
    /// A `return` of a 64-bit integer.
    Return,
    /// A conditional branch that carries a 64-bit integer.
    BrIf,
    /// A table branch that carries a 64-bit integer.
    BrTable,
    /// A branch that carries a 64-bit integer among several values, or to a label that
    /// expects none.
    Br,
    /// A block with several results, one of them a 64-bit integer.
    MultiValueBlock,
    /// An atomic operation on 64-bit integers.
    Atomic,
    /// An operand that should be a 64-bit integer and was not produced as one.
    MissingLowBits,
    /// A block that should end in a 64-bit integer and holds no expression.
    EmptyBlock,
    /// An expression that is part of itself.
    Cycle,
}

/// Why a pass failed.
#[derive(Clone, Copy, Debug, PartialEq, Eq, Structural)]
pub enum Error {
    /// The module uses 64-bit integers in a way that the lowering refuses.
    InvalidInput(InvalidInput),
    /// The module holds a form that the lowering cannot rewrite yet.
    Unimplemented(Unimplemented),
}

impl Error {
    /// The sentence that describes the error.
    pub open spec fn message_text(&self) -> Seq<char> {
        match self {
            Error::InvalidInput(InvalidInput::ExportedGlobal) => "can't export a 64-bit global"@,
            Error::InvalidInput(InvalidInput::ImportedGlobal) => "can't import 64-bit globals"@,
            Error::InvalidInput(InvalidInput::GlobalFromGlobal) => {
                "can't initialize a 64-bit global from another global"@
            },
            Error::InvalidInput(InvalidInput::GlobalTypeMismatch) => "type mismatch in globals"@,
            Error::InvalidInput(InvalidInput::ExportedFunction) => {
                "can't export a function which takes or returns i64"@
            },
            Error::InvalidInput(InvalidInput::ImportedFunction) => {
                "cannot import functions which take or return i64"@
            },
            Error::InvalidInput(InvalidInput::MultiValueResult) => {
                "multi-value returns not supported yet"@
            },
            Error::Unimplemented(Unimplemented::Binop) => "unimplemented 64-bit binary operator"@,
            Error::Unimplemented(Unimplemented::Unop) => "unimplemented 64-bit unary operator"@,
            Error::Unimplemented(Unimplemented::Load) => "unimplemented 64-bit atomic loads"@,
            Error::Unimplemented(Unimplemented::Store) => "unimplemented 64-bit atomic stores"@,
            Error::Unimplemented(Unimplemented::MemoryOffset) => {
                "unimplemented 64-bit access at the end of the address space"@
            },
            Error::Unimplemented(Unimplemented::Call) => "unimplemented call with 64-bit integers"@,
            Error::Unimplemented(Unimplemented::CallIndirect) => {
                "unimplemented indirect call with 64-bit integers"@
            },
            Error::Unimplemented(Unimplemented::Select) => {
                "unimplemented select of 64-bit integers"@
            },
            Error::Unimplemented(Unimplemented::Return) => {
                "unimplemented return of a 64-bit integer"@
            },
            Error::Unimplemented(Unimplemented::BrIf) => {
                "unimplemented conditional branch with a 64-bit integer"@
            },
            Error::Unimplemented(Unimplemented::BrTable) => {
                "unimplemented table branch with a 64-bit integer"@
            },
            Error::Unimplemented(Unimplemented::Br) => {
                "unimplemented branch with a 64-bit integer among several values"@
            },
            Error::Unimplemented(Unimplemented::MultiValueBlock) => {
                "unimplemented support for multi-result blocks"@
            },
            Error::Unimplemented(Unimplemented::Atomic) => "unimplemented 64-bit atomic operation"@,
            Error::Unimplemented(Unimplemented::MissingLowBits) => {
                "an operand that should be a 64-bit integer is none"@
            },
            Error::Unimplemented(Unimplemented::EmptyBlock) => {
                "a block that should end in a 64-bit integer is empty"@
            },
            Error::Unimplemented(Unimplemented::Cycle) => "an expression is part of itself"@,
        }
    }

    /// A sentence that describes the error.
    pub fn message(&self) -> (text: &'static str)
        ensures
            text@ == self.message_text(),
    {
        match self {
            Error::InvalidInput(InvalidInput::ExportedGlobal) => "can't export a 64-bit global",
            Error::InvalidInput(InvalidInput::ImportedGlobal) => "can't import 64-bit globals",
            Error::InvalidInput(InvalidInput::GlobalFromGlobal) => {
                "can't initialize a 64-bit global from another global"
            },
            Error::InvalidInput(InvalidInput::GlobalTypeMismatch) => "type mismatch in globals",
            Error::InvalidInput(InvalidInput::ExportedFunction) => {
                "can't export a function which takes or returns i64"
            },
            Error::InvalidInput(InvalidInput::ImportedFunction) => {
                "cannot import functions which take or return i64"
            },
            Error::InvalidInput(InvalidInput::MultiValueResult) => {
                "multi-value returns not supported yet"
            },
            Error::Unimplemented(Unimplemented::Binop) => "unimplemented 64-bit binary operator",
            Error::Unimplemented(Unimplemented::Unop) => "unimplemented 64-bit unary operator",
            Error::Unimplemented(Unimplemented::Load) => "unimplemented 64-bit atomic loads",
            Error::Unimplemented(Unimplemented::Store) => "unimplemented 64-bit atomic stores",
            Error::Unimplemented(Unimplemented::MemoryOffset) => {
                "unimplemented 64-bit access at the end of the address space"
            },
            Error::Unimplemented(Unimplemented::Call) => "unimplemented call with 64-bit integers",
            Error::Unimplemented(Unimplemented::CallIndirect) => {
                "unimplemented indirect call with 64-bit integers"
            },
            Error::Unimplemented(Unimplemented::Select) => {
                "unimplemented select of 64-bit integers"
            },
            Error::Unimplemented(Unimplemented::Return) => {
                "unimplemented return of a 64-bit integer"
            },
            Error::Unimplemented(Unimplemented::BrIf) => {
                "unimplemented conditional branch with a 64-bit integer"
            },
            Error::Unimplemented(Unimplemented::BrTable) => {
                "unimplemented table branch with a 64-bit integer"
            },
            Error::Unimplemented(Unimplemented::Br) => {
                "unimplemented branch with a 64-bit integer among several values"
            },
            Error::Unimplemented(Unimplemented::MultiValueBlock) => {
                "unimplemented support for multi-result blocks"
            },
            Error::Unimplemented(Unimplemented::Atomic) => "unimplemented 64-bit atomic operation",
            Error::Unimplemented(Unimplemented::MissingLowBits) => {
                "an operand that should be a 64-bit integer is none"
            },
            Error::Unimplemented(Unimplemented::EmptyBlock) => {
                "a block that should end in a 64-bit integer is empty"
            },
            Error::Unimplemented(Unimplemented::Cycle) => "an expression is part of itself",
        }
    }
}

} // verus!
