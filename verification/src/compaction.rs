//! Compaction: from the objects of a document to a document written with the terms of a context.

pub mod laws;
pub mod model;
pub mod objects;
pub mod terms;
