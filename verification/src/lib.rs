//! Lowering of 64-bit integers in a WebAssembly module to pairs of 32-bit integers.

pub mod arena;
pub mod const_value;
pub mod error;
pub mod ir;
pub mod module;
pub mod passes;
pub mod tests_utils;
pub mod ty;
