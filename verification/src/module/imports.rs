//! Identifiers of imports.

use vstd::prelude::*;

verus! {

/// The identifier of an import.
#[derive(Clone, Copy, Debug, PartialEq, Eq, Hash, Structural)]
pub struct ImportId {
    pub index: usize,
}

} // verus!
