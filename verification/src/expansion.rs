//! Expansion: from a document as it is written to the objects that it stands for.

pub mod elements;
pub mod laws;
pub mod maps;
pub mod model;
pub mod nodes;
pub mod values;

pub use elements::expand;
pub use model::expanded;
pub use values::{ExpandedNode, ExpandedObject};
