//! Core data structures and algorithms of a JSON-LD processor.

pub mod assoc;
pub mod compact_iri;
pub mod compaction;
pub mod context;
pub mod document;
pub mod error;
pub mod expansion;
pub mod iri;
pub mod json;
pub mod loader;
pub mod object;
pub mod print;
pub mod processing;
pub mod round_trip;
pub mod syntax;
pub mod text;
