//! Active contexts: what the terms of a document stand for.

use vstd::prelude::*;
use vstd::string::*;

use crate::assoc::{assoc_get, assoc_lookup, assoc_model};
use crate::iri::{can_resolve, iri_syntax, resolved_iri, IriBuf};
use crate::json::{clone_json, Json, JsonView};
use crate::object::value::{text_of, Direction};
use crate::syntax::context::{optional_nullable_text, ContainerKind, Nullable};
use crate::text::{
    begins_with, check_keyword, check_keyword_form, concat, find_char_from, has_keyword_form, is_keyword,
    position_from, starts_with, text_eq,
};

verus! {

/// What a term stands for.
pub struct TermDefinition {
    /// The IRI, blank node label or keyword that the term stands for, if any.
    pub iri: Option<String>,
    /// Whether the term can be the prefix of a compact IRI.
    pub prefix: bool,
    /// Whether the term is protected against another definition.
    pub protected: bool,
    /// Whether the term is a reverse property.
    pub reverse: bool,
    /// The type that the values of the term are given: an IRI, `@id`, `@vocab`, `@json` or `@none`.
    pub typ: Option<String>,
    /// The language that the strings of the term are given, or `null` for none.
    pub language: Option<Nullable<String>>,
    /// The direction that the strings of the term are given, or `null` for none.
    pub direction: Option<Nullable<Direction>>,
    /// The kinds of container that the values of the term are.
    pub container: Vec<ContainerKind>,
    /// The context that holds within the values of the term.
    pub context: Option<Json>,
    /// The term under which the values of the term are nested.
    pub nest: Option<String>,
    /// The property that the keys of an index map of the term stand for.
    pub index: Option<String>,
}

/// The plain data of what a term stands for.
pub struct TermDefinitionModel {
    /// The IRI, blank node label or keyword that the term stands for, if any.
    pub iri: Option<Seq<char>>,
    /// Whether the term can be the prefix of a compact IRI.
    pub prefix: bool,
    /// Whether the term is protected against another definition.
    pub protected: bool,
    /// Whether the term is a reverse property.
    pub reverse: bool,
    /// The type that the values of the term are given.
    pub typ: Option<Seq<char>>,
    /// The language that the strings of the term are given, or `null` for none.
    pub language: Option<Nullable<Seq<char>>>,
    /// The direction that the strings of the term are given, or `null` for none.
    pub direction: Option<Nullable<Direction>>,
    /// The kinds of container that the values of the term are.
    pub container: Seq<ContainerKind>,
    /// The context that holds within the values of the term.
    pub context: Option<JsonView>,
    /// The term under which the values of the term are nested.
    pub nest: Option<Seq<char>>,
    /// The property that the keys of an index map of the term stand for.
    pub index: Option<Seq<char>>,
}

impl View for TermDefinition {
    type V = TermDefinitionModel;

    open spec fn view(&self) -> TermDefinitionModel {
        TermDefinitionModel {
            iri: text_of(self.iri),
            prefix: self.prefix,
            protected: self.protected,
            reverse: self.reverse,
            typ: text_of(self.typ),
            language: optional_nullable_text(self.language),
            direction: self.direction,
            container: self.container@,
            context: match self.context {
                Some(c) => Some(c@),
                None => None,
            },
            nest: text_of(self.nest),
            index: text_of(self.index),
        }
    }
}

impl TermDefinitionModel {
    /// The definition that stands for `iri` and says nothing else.
    pub open spec fn plain(iri: Option<Seq<char>>, protected: bool) -> TermDefinitionModel {
        TermDefinitionModel {
            iri,
            prefix: false,
            protected,
            reverse: false,
            typ: None,
            language: None,
            direction: None,
            container: Seq::empty(),
            context: None,
            nest: None,
            index: None,
        }
    }

    /// Whether the kinds of container of the term hold `kind`.
    pub open spec fn has_container(self, kind: ContainerKind) -> bool {
        self.container.contains(kind)
    }
}

/// An active context.
pub struct ActiveContext {
    /// The base IRI, against which relative IRI references are resolved.
    pub base: Option<IriBuf>,
    /// The vocabulary mapping: what stands before terms that are not defined.
    pub vocab: Option<String>,
    /// The default language of strings.
    pub language: Option<String>,
    /// The default direction of strings.
    pub direction: Option<Direction>,
    /// Whether the context goes on to hold within the nodes below.
    pub propagate: bool,
    /// The context that holds again where this one does not propagate.
    pub previous: Option<Box<ActiveContext>>,
    /// The terms, each with what it stands for.
    pub terms: Vec<(String, TermDefinition)>,
}

/// The plain data of an active context.
pub struct ActiveContextModel {
    /// The base IRI.
    pub base: Option<Seq<char>>,
    /// The vocabulary mapping.
    pub vocab: Option<Seq<char>>,
    /// The default language of strings.
    pub language: Option<Seq<char>>,
    /// The default direction of strings.
    pub direction: Option<Direction>,
    /// Whether the context goes on to hold within the nodes below.
    pub propagate: bool,
    /// The context that holds again where this one does not propagate.
    pub previous: Option<Box<ActiveContextModel>>,
    /// The terms, each with what it stands for.
    pub terms: Seq<(Seq<char>, TermDefinitionModel)>,
}

/// The plain data of an active context.
pub open spec fn active_model(c: ActiveContext) -> ActiveContextModel
    decreases c,
{
    ActiveContextModel {
        base: match c.base {
            Some(b) => Some(b@),
            None => None,
        },
        vocab: text_of(c.vocab),
        language: text_of(c.language),
        direction: c.direction,
        propagate: c.propagate,
        previous: match c.previous {
            Some(p) => Some(Box::new(active_model(*p))),
            None => None,
        },
        terms: assoc_model(c.terms@),
    }
}

impl View for ActiveContext {
    type V = ActiveContextModel;

    open spec fn view(&self) -> ActiveContextModel {
        active_model(*self)
    }
}

impl ActiveContextModel {
    /// The context without terms, with the base IRI `base`.
    pub open spec fn empty(base: Option<Seq<char>>) -> ActiveContextModel {
        ActiveContextModel {
            base,
            vocab: None,
            language: None,
            direction: None,
            propagate: true,
            previous: None,
            terms: Seq::empty(),
        }
    }

    /// What `term` stands for, if it is defined.
    pub open spec fn get(self, term: Seq<char>) -> Option<TermDefinitionModel> {
        assoc_get(self.terms, term)
    }

    /// Whether some term is protected.
    pub open spec fn has_protected_terms(self) -> bool {
        exists|i: int| 0 <= i < self.terms.len() && (#[trigger] self.terms[i]).1.protected
    }

    /// Whether the base IRI, if there is one, is an IRI.
    pub open spec fn well_formed(self) -> bool {
        match self.base {
            Some(b) => iri_syntax(b),
            None => true,
        }
    }
}

impl ActiveContext {
    /// The context without terms, with the base IRI `base`.
    pub fn new(base: Option<IriBuf>) -> (r: ActiveContext)
        ensures
            r@ == ActiveContextModel::empty(
                match base {
                    Some(b) => Some(b@),
                    None => None,
                },
            ),
            r@.well_formed(),
    {
        if let Some(b) = &base {
            let _ = b.as_str();
        }
        let r = ActiveContext {
            base,
            vocab: None,
            language: None,
            direction: None,
            propagate: true,
            previous: None,
            terms: Vec::new(),
        };
        assert(assoc_model(r.terms@) =~= Seq::empty());
        r
    }

    /// What `term` stands for, if it is defined.
    pub fn get(&self, term: &str) -> (r: Option<&TermDefinition>)
        ensures
            match r {
                Some(d) => self@.get(term@) == Some(d@),
                None => self@.get(term@) is None,
            },
    {
        assoc_lookup(&self.terms, term)
    }

    /// Whether some term is protected.
    pub fn has_protected_terms(&self) -> (r: bool)
        ensures
            r == self@.has_protected_terms(),
    {
        let mut i: usize = 0;
        while i < self.terms.len()
            invariant
                i <= self.terms.len(),
                forall|j: int| 0 <= j < i ==> !(#[trigger] self@.terms[j]).1.protected,
            decreases self.terms.len() - i,
        {
            if self.terms[i].1.protected {
                assert(self@.terms[i as int].1.protected);
                return true;
            }
            assert(!self@.terms[i as int].1.protected);
            i = i + 1;
        }
        false
    }
}

/// What `value` stands for where neither a term nor a prefix decides: the
/// vocabulary mapping before it, or its resolution against the base IRI, or itself.
pub open spec fn expand_plain(
    active: ActiveContextModel,
    value: Seq<char>,
    document_relative: bool,
    vocab: bool,
) -> Seq<char> {
    if vocab && active.vocab is Some {
        active.vocab->0 + value
    } else if document_relative && active.base is Some && can_resolve(value, active.base->0) {
        resolved_iri(value, active.base->0)
    } else {
        value
    }
}

/// What `value` stands for where no term decides: where a colon stands in it
/// after its first character, itself if it begins with `_:` or has `//`
/// after the colon, else the IRI of the prefix before the colon followed by
/// what stands after the colon, where the prefix is a term that can be one,
/// else itself if it is an IRI.
pub open spec fn expand_compact(
    active: ActiveContextModel,
    value: Seq<char>,
    document_relative: bool,
    vocab: bool,
) -> Seq<char> {
    match position_from(value, ':', 1) {
        Some(i) => {
            let prefix = value.subrange(0, i);
            let suffix = value.subrange(i + 1, value.len() as int);
            if prefix == "_"@ || begins_with(suffix, "//"@) {
                value
            } else {
                match active.get(prefix) {
                    Some(d) => if d.iri is Some && d.prefix {
                        d.iri->0 + suffix
                    } else if iri_syntax(value) {
                        value
                    } else {
                        expand_plain(active, value, document_relative, vocab)
                    },
                    None => if iri_syntax(value) {
                        value
                    } else {
                        expand_plain(active, value, document_relative, vocab)
                    },
                }
            }
        },
        None => expand_plain(active, value, document_relative, vocab),
    }
}

/// Whether the terms of `active` decide what `value` stands for: it is a
/// term that stands for a keyword, or any term where terms count.
pub open spec fn decided_by_term(active: ActiveContextModel, value: Seq<char>, vocab: bool) -> bool {
    match active.get(value) {
        Some(d) => vocab || (d.iri is Some && is_keyword(d.iri->0)),
        None => false,
    }
}

/// The IRI, blank node label or keyword that `value` stands for in `active`,
/// if it stands for any. Terms count where `vocab` is set, and the base IRI
/// where `document_relative` is.
pub open spec fn expand_iri(
    active: ActiveContextModel,
    value: Seq<char>,
    document_relative: bool,
    vocab: bool,
) -> Option<Seq<char>> {
    if is_keyword(value) {
        Some(value)
    } else if has_keyword_form(value) {
        None
    } else if decided_by_term(active, value, vocab) {
        active.get(value)->0.iri
    } else {
        Some(expand_compact(active, value, document_relative, vocab))
    }
}

impl ActiveContext {
    /// What `value` stands for where neither a term nor a prefix decides.
    fn expand_plain(&self, value: &str, document_relative: bool, vocab: bool) -> (r: String)
        ensures
            r@ == expand_plain(self@, value@, document_relative, vocab),
    {
        if vocab {
            if let Some(v) = &self.vocab {
                return concat(v.as_str(), value);
            }
        }
        if document_relative {
            if let Some(b) = &self.base {
                if let Some(iri) = b.resolve(value) {
                    return iri.into_string();
                }
            }
        }
        value.to_owned()
    }

    /// What `value` stands for where no term decides.
    fn expand_compact(&self, value: &str, document_relative: bool, vocab: bool) -> (r: String)
        ensures
            r@ == expand_compact(self@, value@, document_relative, vocab),
    {
        match find_char_from(value, ':', 1) {
            Some(i) => {
                let n = value.unicode_len();
                let prefix = value.substring_char(0, i);
                let suffix = value.substring_char(i + 1, n);
                if text_eq(prefix, "_") || starts_with(suffix, "//") {
                    return value.to_owned();
                }
                if let Some(d) = self.get(prefix) {
                    if d.prefix {
                        if let Some(iri) = &d.iri {
                            return concat(iri.as_str(), suffix);
                        }
                    }
                }
                if IriBuf::from_str(value).is_some() {
                    return value.to_owned();
                }
                self.expand_plain(value, document_relative, vocab)
            },
            None => self.expand_plain(value, document_relative, vocab),
        }
    }

    /// The IRI, blank node label or keyword that `value` stands for, if it
    /// stands for any. Terms count where `vocab` is set, and the base IRI
    /// where `document_relative` is.
    pub fn expand_iri(&self, value: &str, document_relative: bool, vocab: bool) -> (r: Option<String>)
        ensures
            text_of(r) == expand_iri(self@, value@, document_relative, vocab),
    {
        if check_keyword(value) {
            return Some(value.to_owned());
        }
        if check_keyword_form(value) {
            return None;
        }
        if let Some(d) = self.get(value) {
            let keyword = match &d.iri {
                Some(iri) => check_keyword(iri.as_str()),
                None => false,
            };
            if vocab || keyword {
                return match &d.iri {
                    Some(iri) => Some(iri.clone()),
                    None => None,
                };
            }
        }
        Some(self.expand_compact(value, document_relative, vocab))
    }
}

/// A copy of an optional string.
pub fn clone_text(s: &Option<String>) -> (r: Option<String>)
    ensures
        text_of(r) == text_of(*s),
{
    match s {
        Some(s) => Some(s.clone()),
        None => None,
    }
}

/// A copy of an optional string that may be given as `null`.
pub fn clone_nullable_text(s: &Option<Nullable<String>>) -> (r: Option<Nullable<String>>)
    ensures
        optional_nullable_text(r) == optional_nullable_text(*s),
{
    match s {
        Some(Nullable::Given(s)) => Some(Nullable::Given(s.clone())),
        Some(Nullable::Null) => Some(Nullable::Null),
        None => None,
    }
}

/// A copy of an optional direction that may be given as `null`.
pub fn clone_direction(d: &Option<Nullable<Direction>>) -> (r: Option<Nullable<Direction>>)
    ensures
        r == *d,
{
    match d {
        Some(Nullable::Given(d)) => Some(Nullable::Given(*d)),
        Some(Nullable::Null) => Some(Nullable::Null),
        None => None,
    }
}

/// A copy of kinds of container.
pub fn clone_kinds(ks: &Vec<ContainerKind>) -> (r: Vec<ContainerKind>)
    ensures
        r@ == ks@,
{
    let mut copy: Vec<ContainerKind> = Vec::new();
    let mut i: usize = 0;
    while i < ks.len()
        invariant
            i <= ks.len(),
            copy@ == ks@.take(i as int),
        decreases ks.len() - i,
    {
        copy.push(ks[i]);
        assert(ks@.take(i as int).push(ks@[i as int]) =~= ks@.take(i + 1));
        i = i + 1;
    }
    assert(ks@.take(ks.len() as int) =~= ks@);
    copy
}

impl TermDefinition {
    /// The definition that stands for `iri` and says nothing else.
    pub fn plain(iri: Option<String>, protected: bool) -> (r: TermDefinition)
        ensures
            r@ == TermDefinitionModel::plain(text_of(iri), protected),
    {
        TermDefinition {
            iri,
            prefix: false,
            protected,
            reverse: false,
            typ: None,
            language: None,
            direction: None,
            container: Vec::new(),
            context: None,
            nest: None,
            index: None,
        }
    }

    /// A copy of the definition.
    pub fn copy(&self) -> (r: TermDefinition)
        ensures
            r@ == self@,
    {
        TermDefinition {
            iri: clone_text(&self.iri),
            prefix: self.prefix,
            protected: self.protected,
            reverse: self.reverse,
            typ: clone_text(&self.typ),
            language: clone_nullable_text(&self.language),
            direction: clone_direction(&self.direction),
            container: clone_kinds(&self.container),
            context: match &self.context {
                Some(c) => Some(clone_json(c)),
                None => None,
            },
            nest: clone_text(&self.nest),
            index: clone_text(&self.index),
        }
    }

    /// Whether the kinds of container of the term hold `kind`.
    pub fn has_container(&self, kind: ContainerKind) -> (r: bool)
        ensures
            r == self@.has_container(kind),
    {
        has_kind(&self.container, kind)
    }
}

/// Whether `ks` holds `kind`.
pub fn has_kind(ks: &Vec<ContainerKind>, kind: ContainerKind) -> (r: bool)
    ensures
        r == ks@.contains(kind),
{
    let mut i: usize = 0;
    while i < ks.len()
        invariant
            i <= ks.len(),
            forall|j: int| 0 <= j < i ==> ks@[j] != kind,
        decreases ks.len() - i,
    {
        if ks[i] == kind {
            return true;
        }
        i = i + 1;
    }
    false
}

/// A copy of the terms of a context.
pub fn clone_terms(terms: &Vec<(String, TermDefinition)>) -> (r: Vec<(String, TermDefinition)>)
    ensures
        assoc_model(r@) == assoc_model(terms@),
{
    let mut copy: Vec<(String, TermDefinition)> = Vec::new();
    let mut i: usize = 0;
    while i < terms.len()
        invariant
            i <= terms.len(),
            copy.len() == i,
            forall|j: int| 0 <= j < i ==> (#[trigger] copy@[j]).0@ == terms@[j].0@ && copy@[j].1@ == terms@[j].1@,
        decreases terms.len() - i,
    {
        copy.push((terms[i].0.clone(), terms[i].1.copy()));
        i = i + 1;
    }
    assert(assoc_model(copy@) =~= assoc_model(terms@));
    copy
}

/// A copy of an active context.
pub fn clone_active(c: &ActiveContext) -> (r: ActiveContext)
    ensures
        r@ == c@,
    decreases c,
{
    ActiveContext {
        base: match &c.base {
            Some(b) => Some(b.clone()),
            None => None,
        },
        vocab: clone_text(&c.vocab),
        language: clone_text(&c.language),
        direction: c.direction,
        propagate: c.propagate,
        previous: match &c.previous {
            Some(p) => Some(Box::new(clone_active(p))),
            None => None,
        },
        terms: clone_terms(&c.terms),
    }
}

} // verus!
