//! Passes over a module.

pub mod remove_i64;
