//! Values paired with an optional index.

use vstd::prelude::*;

verus! {

/// A value together with the index it was found under, if any.
pub struct Indexed<T> {
    /// The value.
    pub inner: T,
    /// The index.
    pub index: Option<String>,
}

impl<T> Indexed<T> {
    /// Pairs `inner` with `index`.
    pub fn new(inner: T, index: Option<String>) -> (r: Self)
        ensures
            r.inner == inner,
            r.index == index,
    {
        Indexed { inner, index }
    }

    /// The value.
    pub fn inner(&self) -> (r: &T)
        ensures
            *r == self.inner,
    {
        &self.inner
    }

    /// The index, if any.
    pub fn index(&self) -> (r: Option<&str>)
        ensures
            r is Some == self.index is Some,
            r matches Some(s) ==> s@ == self.index->0@,
    {
        match &self.index {
            Some(s) => Some(s.as_str()),
            None => None,
        }
    }

    /// Gives the value and the index back.
    pub fn into_parts(self) -> (r: (T, Option<String>))
        ensures
            r.0 == self.inner,
            r.1 == self.index,
    {
        (self.inner, self.index)
    }
}

} // verus!
