//! IRIs and blank node labels, as the strings that were checked to be such.

use vstd::laws_eq::*;
use vstd::prelude::*;
use vstd::std_specs::cmp::PartialEqSpec;

use crate::object::laws::reflexive_eq;

verus! {

/// Whether `s` is an IRI: what `iref::Iri::new` accepts.
pub uninterp spec fn iri_syntax(s: Seq<char>) -> bool;

/// Whether `s` is an IRI reference: what `iref::IriRef::new` accepts.
pub uninterp spec fn iri_reference_syntax(s: Seq<char>) -> bool;

/// The IRI that the IRI reference `reference` stands for where `base` is the
/// base IRI: what `iref::IriRef::resolved` returns.
pub uninterp spec fn resolved_iri(reference: Seq<char>, base: Seq<char>) -> Seq<char>;

/// Whether `s` is a blank node label: what `rdf_types::BlankId::new` accepts.
pub uninterp spec fn blank_id_syntax(s: Seq<char>) -> bool;

/// Calls `iref::Iri::new` on `s` and says whether it accepted it. An IRI is
/// an IRI reference with a scheme.
#[verifier::external_body]
fn parses_as_iri(s: &str) -> (r: bool)
    ensures
        r == iri_syntax(s@),
        r ==> iri_reference_syntax(s@),
{
    iref::Iri::new(s).is_ok()
}

/// Calls `iref::IriRef::new` on `s` and says whether it accepted it.
#[verifier::external_body]
fn parses_as_iri_reference(s: &str) -> (r: bool)
    ensures
        r == iri_reference_syntax(s@),
{
    iref::IriRef::new(s).is_ok()
}

/// Whether the IRI `iri` names an authority: whether `iref::Iri::authority` returns one.
pub uninterp spec fn has_authority(iri: Seq<char>) -> bool;

/// Whether the path of the IRI `iri` begins with a slash: what `iref::Path::is_absolute` returns for it.
pub uninterp spec fn has_absolute_path(iri: Seq<char>) -> bool;

/// Whether references can be resolved against the IRI `base`: it names an
/// authority, or its path begins with a slash.
pub open spec fn is_hierarchical(base: Seq<char>) -> bool {
    has_authority(base) || has_absolute_path(base)
}

/// Whether `reference` can be resolved against `base`: it is an IRI
/// reference, and references can be resolved against `base`.
pub open spec fn can_resolve(reference: Seq<char>, base: Seq<char>) -> bool {
    iri_reference_syntax(reference) && is_hierarchical(base)
}

/// Calls `iref::Iri::authority` on the IRI `iri` and says whether it returned an authority.
#[verifier::external_body]
fn names_authority(iri: &str) -> (r: bool)
    requires
        iri_syntax(iri@),
    ensures
        r == has_authority(iri@),
{
    iref::Iri::new(iri).unwrap().authority().is_some()
}

/// Calls `iref::Path::is_absolute` on the path of the IRI `iri`.
#[verifier::external_body]
fn begins_path_with_slash(iri: &str) -> (r: bool)
    requires
        iri_syntax(iri@),
    ensures
        r == has_absolute_path(iri@),
{
    iref::Iri::new(iri).unwrap().path().is_absolute()
}

/// Calls `iref::IriRef::resolved` on the IRI reference `reference` with the
/// base IRI `base`. What comes back is an IRI. The base names an authority
/// or has a path that begins with a slash: against another base the call
/// may take more from the base than its path.
#[verifier::external_body]
fn resolve_reference(reference: &str, base: &str) -> (r: String)
    requires
        iri_reference_syntax(reference@),
        iri_syntax(base@),
        is_hierarchical(base@),
    ensures
        r@ == resolved_iri(reference@, base@),
        iri_syntax(r@),
{
    let reference = iref::IriRef::new(reference).unwrap();
    let base = iref::Iri::new(base).unwrap();
    reference.resolved(base).into_string()
}

/// Calls `rdf_types::BlankId::new` on `s` and says whether it accepted it.
/// It accepts only strings that begin with `_:` and go on.
#[verifier::external_body]
fn parses_as_blank_id(s: &str) -> (r: bool)
    ensures
        r == blank_id_syntax(s@),
        r ==> s@.len() >= 3 && s@[0] == '_' && s@[1] == ':',
{
    rdf_types::BlankId::new(s).is_ok()
}

/// An IRI.
pub struct IriBuf(String);

/// A blank node label.
pub struct BlankIdBuf(String);

impl View for IriBuf {
    type V = Seq<char>;

    closed spec fn view(&self) -> Seq<char> {
        self.0@
    }
}

impl View for BlankIdBuf {
    type V = Seq<char>;

    closed spec fn view(&self) -> Seq<char> {
        self.0@
    }
}

impl IriBuf {
    #[verifier::type_invariant]
    spec fn well_formed(self) -> bool {
        iri_syntax(self.0@)
    }

    /// Checks that `s` is an IRI; hands `s` back where it is not.
    pub fn new(s: String) -> (r: Result<IriBuf, String>)
        ensures
            r is Ok <==> iri_syntax(s@),
            r matches Ok(iri) ==> iri@ == s@,
            r matches Err(e) ==> e@ == s@,
    {
        if parses_as_iri(s.as_str()) {
            Ok(IriBuf(s))
        } else {
            Err(s)
        }
    }

    /// Checks that `s` is an IRI.
    pub fn from_str(s: &str) -> (r: Option<IriBuf>)
        ensures
            r is Some <==> iri_syntax(s@),
            r matches Some(iri) ==> iri@ == s@,
    {
        if parses_as_iri(s) {
            Some(IriBuf(s.to_owned()))
        } else {
            None
        }
    }

    /// The IRI as a string.
    pub fn as_str(&self) -> (r: &str)
        ensures
            r@ == self@,
            iri_syntax(r@),
    {
        proof {
            use_type_invariant(self);
        }
        self.0.as_str()
    }

    /// Gives the string back.
    pub fn into_string(self) -> (r: String)
        ensures
            r@ == self@,
            iri_syntax(r@),
    {
        proof {
            use_type_invariant(&self);
        }
        self.0
    }

    /// Whether references can be resolved against this IRI.
    pub fn is_hierarchical(&self) -> (r: bool)
        ensures
            r == is_hierarchical(self@),
    {
        proof {
            use_type_invariant(self);
        }
        names_authority(self.0.as_str()) || begins_path_with_slash(self.0.as_str())
    }

    /// Resolves `reference` against this IRI, where it can be resolved against it.
    pub fn resolve(&self, reference: &str) -> (r: Option<IriBuf>)
        ensures
            r is Some <==> can_resolve(reference@, self@),
            r matches Some(iri) ==> iri@ == resolved_iri(reference@, self@),
    {
        proof {
            use_type_invariant(self);
        }
        if parses_as_iri_reference(reference) && self.is_hierarchical() {
            Some(IriBuf(resolve_reference(reference, self.0.as_str())))
        } else {
            None
        }
    }
}

impl Clone for IriBuf {
    fn clone(&self) -> (r: Self)
        ensures
            r@ == self@,
    {
        proof {
            use_type_invariant(self);
        }
        IriBuf(self.0.clone())
    }
}

impl PartialEq for IriBuf {
    fn eq(&self, other: &IriBuf) -> (r: bool) {
        self.0 == other.0
    }
}

impl vstd::std_specs::cmp::PartialEqSpecImpl for IriBuf {
    open spec fn obeys_eq_spec() -> bool {
        true
    }

    open spec fn eq_spec(&self, other: &IriBuf) -> bool {
        self@ == other@
    }
}

impl BlankIdBuf {
    #[verifier::type_invariant]
    spec fn well_formed(self) -> bool {
        blank_id_syntax(self.0@)
    }

    /// Checks that `s` is a blank node label; hands `s` back where it is not.
    pub fn new(s: String) -> (r: Result<BlankIdBuf, String>)
        ensures
            r is Ok <==> blank_id_syntax(s@),
            r matches Ok(id) ==> id@ == s@,
            r matches Err(e) ==> e@ == s@,
    {
        if parses_as_blank_id(s.as_str()) {
            Ok(BlankIdBuf(s))
        } else {
            Err(s)
        }
    }

    /// Checks that `s` is a blank node label.
    pub fn from_str(s: &str) -> (r: Option<BlankIdBuf>)
        ensures
            r is Some <==> blank_id_syntax(s@),
            r matches Some(id) ==> id@ == s@,
    {
        if parses_as_blank_id(s) {
            Some(BlankIdBuf(s.to_owned()))
        } else {
            None
        }
    }

    /// The label as a string, `_:` included.
    pub fn as_str(&self) -> (r: &str)
        ensures
            r@ == self@,
            blank_id_syntax(r@),
    {
        proof {
            use_type_invariant(self);
        }
        self.0.as_str()
    }
}

impl Clone for BlankIdBuf {
    fn clone(&self) -> (r: Self)
        ensures
            r@ == self@,
    {
        proof {
            use_type_invariant(self);
        }
        BlankIdBuf(self.0.clone())
    }
}

impl PartialEq for BlankIdBuf {
    fn eq(&self, other: &BlankIdBuf) -> (r: bool) {
        self.0 == other.0
    }
}

impl vstd::std_specs::cmp::PartialEqSpecImpl for BlankIdBuf {
    open spec fn obeys_eq_spec() -> bool {
        true
    }

    open spec fn eq_spec(&self, other: &BlankIdBuf) -> bool {
        self@ == other@
    }
}

/// Equality of IRIs and of blank node labels is the equality of their texts:
/// an equivalence, which `==` decides.
pub proof fn lemma_text_equality()
    ensures
        obeys_eq::<IriBuf>(),
        obeys_eq::<BlankIdBuf>(),
        reflexive_eq::<IriBuf>(),
        reflexive_eq::<BlankIdBuf>(),
{
    reveal(obeys_eq_spec_properties);
}

} // verus!
