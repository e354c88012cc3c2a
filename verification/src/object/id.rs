//! Node identifiers.

use vstd::prelude::*;

verus! {

/// An identifier that names a node: an IRI or a blank node label.
pub enum ValidId<T, B> {
    /// A resolved IRI.
    Iri(T),
    /// A blank node label, local to its document.
    Blank(B),
}

/// An identifier as it is found in a document.
pub enum Id<T, B> {
    /// An IRI or a blank node label.
    Valid(ValidId<T, B>),
    /// A string that is neither, kept as it was written.
    Invalid(String),
}

impl<T, B> Id<T, B> {
    /// The identifier of the IRI `iri`.
    pub fn iri(iri: T) -> (r: Self)
        ensures
            r == Id::<T, B>::Valid(ValidId::Iri(iri)),
    {
        Id::Valid(ValidId::Iri(iri))
    }

    /// The identifier of the blank node labelled `label`.
    pub fn blank(label: B) -> (r: Self)
        ensures
            r == Id::<T, B>::Valid(ValidId::Blank(label)),
    {
        Id::Valid(ValidId::Blank(label))
    }

    /// Whether this is an IRI or a blank node label.
    pub fn is_valid(&self) -> (r: bool)
        ensures
            r == (self is Valid),
    {
        match self {
            Id::Valid(_) => true,
            Id::Invalid(_) => false,
        }
    }

    /// Whether this is a blank node label.
    pub fn is_blank(&self) -> (r: bool)
        ensures
            r == (self matches Id::Valid(ValidId::Blank(_))),
    {
        match self {
            Id::Valid(ValidId::Blank(_)) => true,
            _ => false,
        }
    }
}

} // verus!
