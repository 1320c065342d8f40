//! Settings of a module.

use vstd::prelude::*;

verus! {

/// Settings that the passes over a module consult.
#[derive(Clone, Copy, Debug, PartialEq, Eq, Structural)]
pub struct ModuleConfig {
    /// Whether locals that a pass creates receive readable names.
    pub generate_names: bool,
}

impl ModuleConfig {
    /// The default settings: no names are generated.
    pub fn new() -> (config: ModuleConfig)
        ensures
            !config.generate_names,
    {
        ModuleConfig { generate_names: false }
    }
}

} // verus!
