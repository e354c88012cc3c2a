//! The surface syntax of contexts.

pub mod context;
pub mod print;
