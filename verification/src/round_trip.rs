//! Compaction and expansion undo each other: the objects of a sound
//! document, compacted with the context without terms and expanded again,
//! are the objects that were there.

pub mod documents;
pub mod form;
pub mod names;
pub mod nodes;
pub mod objects;
pub mod parts;
pub mod sound;
pub mod steps;
pub mod values;
