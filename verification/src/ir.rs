//! The intermediate representation of function bodies.

pub mod make;
pub mod node;
pub mod ops;
pub mod reach;
