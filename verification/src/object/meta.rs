//! Values with metadata: the metadata takes no part in the comparison.

use vstd::prelude::*;

use crate::object::mapped_eq::MappedEq;

verus! {

/// `locspan::Meta`: a value, and the metadata that it carries.
#[verifier::external_type_specification]
#[verifier::reject_recursive_types(T)]
#[verifier::reject_recursive_types(M)]
pub struct ExMeta<T, M>(locspan::Meta<T, M>);

/// `locspan::Stripped`: a value that is compared without its metadata.
#[verifier::external_type_specification]
#[verifier::reject_recursive_types(T)]
pub struct ExStripped<T: ?Sized>(locspan::Stripped<T>);

impl<T: MappedEq, M> MappedEq for locspan::Meta<T, M> {
    type BlankId = T::BlankId;

    open spec fn obeys_mapped_eq() -> bool {
        T::obeys_mapped_eq()
    }

    open spec fn mapped_eq_spec(&self, other: &Self, f: spec_fn(T::BlankId) -> T::BlankId) -> bool {
        self.0.mapped_eq_spec(&other.0, f)
    }

    proof fn lemma_mapped_eq_difunctional(
        a: &Self,
        b: &Self,
        c: &Self,
        d: &Self,
        f: spec_fn(T::BlankId) -> T::BlankId,
    ) {
        T::lemma_mapped_eq_difunctional(&a.0, &b.0, &c.0, &d.0, f);
    }

    fn mapped_eq<'a, 'b, F: Fn(&'a T::BlankId) -> &'b T::BlankId>(&'a self, other: &Self, f: &F) -> (r:
        bool) where T::BlankId: 'a + 'b {
        self.0.mapped_eq(&other.0, f)
    }
}

impl<T: MappedEq> MappedEq for locspan::Stripped<T> {
    type BlankId = T::BlankId;

    open spec fn obeys_mapped_eq() -> bool {
        T::obeys_mapped_eq()
    }

    open spec fn mapped_eq_spec(&self, other: &Self, f: spec_fn(T::BlankId) -> T::BlankId) -> bool {
        self.0.mapped_eq_spec(&other.0, f)
    }

    proof fn lemma_mapped_eq_difunctional(
        a: &Self,
        b: &Self,
        c: &Self,
        d: &Self,
        f: spec_fn(T::BlankId) -> T::BlankId,
    ) {
        T::lemma_mapped_eq_difunctional(&a.0, &b.0, &c.0, &d.0, f);
    }

    fn mapped_eq<'a, 'b, F: Fn(&'a T::BlankId) -> &'b T::BlankId>(&'a self, other: &Self, f: &F) -> (r:
        bool) where T::BlankId: 'a + 'b {
        self.0.mapped_eq(&other.0, f)
    }
}

} // verus!
