//! Constant initializer expressions.

use vstd::prelude::*;
use crate::ir::node::GlobalId;
use crate::ir::ops::Value;

verus! {

/// The initializer of a global defined in the module.
#[derive(Clone, Copy, Debug, PartialEq, Eq, Structural)]
pub enum Const {
    /// A literal.
    Value(Value),
    /// The value of another global.
    Global(GlobalId),
}

} // verus!
