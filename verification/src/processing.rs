//! The processing of contexts: how a context as it is written changes an active context.

pub mod contexts;
pub mod laws;
pub mod model;
pub mod terms;

pub use contexts::{found_by, process, processed};
pub use model::{Options, MAX_REMOTE_CONTEXTS};
