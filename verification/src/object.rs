//! The expanded form: identifiers, values, nodes, lists, and their comparison.

pub mod id;
pub mod indexed;
pub mod laws;
pub mod mapped_eq;
pub mod matching;
pub mod meta;
pub mod model;
pub mod node;
pub mod same;
pub mod value;
