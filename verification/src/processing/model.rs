//! What the processing of a context comes to.

use vstd::prelude::*;
use vstd::string::*;

use crate::assoc::{assoc_get, assoc_has, assoc_with, assoc_without};
use crate::context::{decided_by_term, expand_iri, ActiveContextModel, TermDefinitionModel};
use crate::error::ErrorCode;
use crate::iri::{blank_id_syntax, can_resolve, iri_syntax, resolved_iri};
use crate::json::JsonView;
use crate::object::value::Direction;
use crate::syntax::context::{ContainerKind, Nullable};
use crate::text::{begins_with, ends_with_gen_delim, has_keyword_form, is_keyword, position, position_from};

verus! {

/// How a context is to be processed.
#[derive(Clone, Copy, PartialEq, Eq, Structural, Debug)]
pub struct Options {
    /// Whether protected terms may be defined anew.
    pub override_protected: bool,
    /// Whether the context goes on to hold within the nodes below.
    pub propagate: bool,
    /// Whether a remote context that was already met is processed again.
    pub validate_scoped: bool,
}

/// What surrounds the processing of a context.
pub struct Env {
    /// The IRI of the document that holds the context.
    pub base: Option<Seq<char>>,
    /// What the loader finds for each IRI.
    pub found: spec_fn(Seq<char>) -> Option<(Seq<char>, JsonView)>,
    /// The remote contexts on the way to this one.
    pub remote: Seq<Seq<char>>,
}

/// An active context in the making, with the terms of the context being
/// processed that are defined (`true`) or being defined (`false`).
pub struct State {
    /// The active context.
    pub active: ActiveContextModel,
    /// The terms that are defined, or being defined.
    pub defined: Seq<(Seq<char>, bool)>,
}

/// How many remote contexts may be followed from one context.
pub const MAX_REMOTE_CONTEXTS: usize = 32;

/// The kind of container that a keyword names.
pub open spec fn container_kind(s: Seq<char>) -> Option<ContainerKind> {
    if s == "@graph"@ {
        Some(ContainerKind::Graph)
    } else if s == "@id"@ {
        Some(ContainerKind::Id)
    } else if s == "@index"@ {
        Some(ContainerKind::Index)
    } else if s == "@language"@ {
        Some(ContainerKind::Language)
    } else if s == "@list"@ {
        Some(ContainerKind::List)
    } else if s == "@set"@ {
        Some(ContainerKind::Unordered)
    } else if s == "@type"@ {
        Some(ContainerKind::Type)
    } else {
        None
    }
}

/// The kinds of container that the first `k` items name, if each is a string that names one.
pub open spec fn container_kinds(items: Seq<JsonView>, k: int) -> Option<Seq<ContainerKind>>
    decreases k,
{
    if k <= 0 || k > items.len() {
        Some(Seq::empty())
    } else {
        match (container_kinds(items, k - 1), items[k - 1]) {
            (Some(ks), JsonView::Text(s)) => match container_kind(s) {
                Some(kind) => Some(ks.push(kind)),
                None => None,
            },
            _ => None,
        }
    }
}

/// Whether kinds of container go together: one kind alone; `@graph` with
/// `@id` or `@index`, and `@set` with either; `@set` with `@index`, `@id`,
/// `@type` or `@language`.
pub open spec fn container_allowed(ks: Seq<ContainerKind>) -> bool {
    let graph = ks.contains(ContainerKind::Graph);
    let id = ks.contains(ContainerKind::Id);
    let index = ks.contains(ContainerKind::Index);
    let language = ks.contains(ContainerKind::Language);
    let list = ks.contains(ContainerKind::List);
    let set = ks.contains(ContainerKind::Unordered);
    let ty = ks.contains(ContainerKind::Type);
    let selectors = (if id {
        1int
    } else {
        0int
    }) + (if index {
        1int
    } else {
        0int
    }) + (if language {
        1int
    } else {
        0int
    }) + (if ty {
        1int
    } else {
        0int
    });
    &&& ks.len() >= 1
    &&& ks.no_duplicates()
    &&& selectors <= 1
    &&& list ==> ks.len() == 1
    &&& graph ==> !language && !ty
}

/// The kinds of container that an `@container` entry names.
pub open spec fn container_of(value: JsonView) -> Result<Seq<ContainerKind>, ErrorCode> {
    let kinds = match value {
        JsonView::Text(s) => match container_kind(s) {
            Some(k) => Some(seq![k]),
            None => None,
        },
        JsonView::Array(items) => container_kinds(items, items.len() as int),
        _ => None,
    };
    match kinds {
        Some(ks) => if container_allowed(ks) {
            Ok(ks)
        } else {
            Err(ErrorCode::InvalidContainerMapping)
        },
        None => Err(ErrorCode::InvalidContainerMapping),
    }
}

/// Whether `key` may stand in the definition of a term.
pub open spec fn is_definition_key(key: Seq<char>) -> bool {
    key == "@id"@ || key == "@reverse"@ || key == "@container"@ || key == "@context"@ || key
        == "@direction"@ || key == "@index"@ || key == "@language"@ || key == "@nest"@ || key == "@prefix"@
        || key == "@propagate"@ || key == "@protected"@ || key == "@type"@
}

/// Whether each of the first `k` keys may stand in the definition of a term.
pub open spec fn definition_keys_allowed(entries: Seq<(Seq<char>, JsonView)>, k: int) -> bool
    decreases k,
{
    if k <= 0 || k > entries.len() {
        true
    } else {
        definition_keys_allowed(entries, k - 1) && is_definition_key(entries[k - 1].0)
    }
}

/// Whether `iri` is an IRI or a blank node label.
pub open spec fn names_node(iri: Seq<char>) -> bool {
    iri_syntax(iri) || blank_id_syntax(iri)
}

/// Whether a colon stands in `term` between its first and its last character, or a slash anywhere.
pub open spec fn looks_like_iri(term: Seq<char>) -> bool {
    (match position_from(term, ':', 1) {
        Some(i) => i + 1 < term.len(),
        None => false,
    }) || position(term, '/') is Some
}

/// Whether a colon or a slash stands in `term`.
pub open spec fn has_colon_or_slash(term: Seq<char>) -> bool {
    position(term, ':') is Some || position(term, '/') is Some
}

/// Whether two definitions say the same, whether protected or not.
pub open spec fn same_definition(a: TermDefinitionModel, b: TermDefinitionModel) -> bool {
    a == (TermDefinitionModel { protected: a.protected, ..b })
}

/// The definition of a term as an object: `null` and a string stand for an `@id`.
pub open spec fn definition_object(value: JsonView) -> Option<Seq<(Seq<char>, JsonView)>> {
    match value {
        JsonView::Null => Some(seq![("@id"@, JsonView::Null)]),
        JsonView::Text(s) => Some(seq![("@id"@, JsonView::Text(s))]),
        JsonView::Object(entries) => Some(entries),
        _ => None,
    }
}

/// Whether the definition of the term `@type` is one that can be: `@container` is `@set`, and
/// `@protected` may be given.
pub open spec fn type_definition_allowed(value: JsonView) -> bool {
    match value {
        JsonView::Object(entries) => {
            &&& assoc_get(entries, "@container"@) == Some(JsonView::Text("@set"@))
            &&& forall|i: int|
                0 <= i < entries.len() ==> (#[trigger] entries[i]).0 == "@container"@ || entries[i].0
                    == "@protected"@
        },
        _ => false,
    }
}

/// Defines `term` where the context being processed has it and it is not defined yet.
pub open spec fn define_if_local(
    st: State,
    d: JsonView,
    term: Seq<char>,
    protected: bool,
    env: Env,
    opts: Options,
    rf: nat,
    tf: nat,
) -> Result<State, ErrorCode>
    decreases rf, d, tf, 0int,
{
    if d.has(term) && assoc_get(st.defined, term) != Some(true) {
        if tf == 0 {
            Err(ErrorCode::CyclicIriMapping)
        } else {
            define_term(st, d, term, protected, env, opts, rf, (tf - 1) as nat)
        }
    } else {
        Ok(st)
    }
}

/// What `value` stands for while the context `d` is being processed: the
/// terms of `d` that it needs are defined first.
pub open spec fn expand_iri_defining(
    st: State,
    d: JsonView,
    value: Seq<char>,
    document_relative: bool,
    vocab: bool,
    protected: bool,
    env: Env,
    opts: Options,
    rf: nat,
    tf: nat,
) -> Result<(State, Option<Seq<char>>), ErrorCode>
    decreases rf, d, tf, 1int,
{
    if is_keyword(value) {
        Ok((st, Some(value)))
    } else if has_keyword_form(value) {
        Ok((st, None))
    } else {
        match define_if_local(st, d, value, protected, env, opts, rf, tf) {
            Err(e) => Err(e),
            Ok(st1) => {
                let prefix = match position_from(value, ':', 1) {
                    Some(i) => if value.subrange(0, i) == "_"@ || begins_with(
                        value.subrange(i + 1, value.len() as int),
                        "//"@,
                    ) {
                        None
                    } else {
                        Some(value.subrange(0, i))
                    },
                    None => None,
                };
                if decided_by_term(st1.active, value, vocab) || prefix is None {
                    Ok((st1, expand_iri(st1.active, value, document_relative, vocab)))
                } else {
                    match define_if_local(st1, d, prefix->0, protected, env, opts, rf, tf) {
                        Err(e) => Err(e),
                        Ok(st2) => Ok((st2, expand_iri(st2.active, value, document_relative, vocab))),
                    }
                }
            },
        }
    }
}

/// The type mapping of a term being defined.
pub open spec fn define_type(
    st: State,
    d: JsonView,
    value: Seq<(Seq<char>, JsonView)>,
    protected: bool,
    env: Env,
    opts: Options,
    rf: nat,
    tf: nat,
) -> Result<(State, Option<Seq<char>>), ErrorCode>
    decreases rf, d, tf, 2int,
{
    match assoc_get(value, "@type"@) {
        None => Ok((st, None)),
        Some(JsonView::Text(t)) => match expand_iri_defining(st, d, t, false, true, protected, env, opts, rf, tf) {
            Err(e) => Err(e),
            Ok((st1, Some(iri))) => if iri == "@id"@ || iri == "@vocab"@ || iri == "@json"@ || iri == "@none"@
                || iri_syntax(iri) {
                Ok((st1, Some(iri)))
            } else {
                Err(ErrorCode::InvalidTypeMapping)
            },
            Ok((st1, None)) => Err(ErrorCode::InvalidTypeMapping),
        },
        Some(_) => Err(ErrorCode::InvalidTypeMapping),
    }
}

/// The IRI that a term being defined stands for, and whether it can be a
/// prefix; or nothing, where the term is to be left undefined.
pub open spec fn define_iri(
    st: State,
    d: JsonView,
    term: Seq<char>,
    value: Seq<(Seq<char>, JsonView)>,
    simple: bool,
    protected: bool,
    env: Env,
    opts: Options,
    rf: nat,
    tf: nat,
) -> Result<(State, Option<(Option<Seq<char>>, bool)>), ErrorCode>
    decreases rf, d, tf, 2int,
{
    let id = assoc_get(value, "@id"@);
    if id is Some && id != Some(JsonView::Text(term)) {
        match id->0 {
            JsonView::Null => Ok((st, Some((None, false)))),
            JsonView::Text(s) => if !is_keyword(s) && has_keyword_form(s) {
                Ok((st, None))
            } else {
                match expand_iri_defining(st, d, s, false, true, protected, env, opts, rf, tf) {
                    Err(e) => Err(e),
                    Ok((st1, None)) => Err(ErrorCode::InvalidIriMapping),
                    Ok((st1, Some(iri))) => if !(is_keyword(iri) || names_node(iri)) {
                        Err(ErrorCode::InvalidIriMapping)
                    } else if iri == "@context"@ {
                        Err(ErrorCode::InvalidKeywordAlias)
                    } else if looks_like_iri(term) {
                        let st2 = State { defined: assoc_with(st1.defined, term, true), ..st1 };
                        match expand_iri_defining(st2, d, term, false, true, protected, env, opts, rf, tf) {
                            Err(e) => Err(e),
                            Ok((st3, expanded)) => if expanded == Some(iri) {
                                Ok((st3, Some((Some(iri), false))))
                            } else {
                                Err(ErrorCode::InvalidIriMapping)
                            },
                        }
                    } else {
                        Ok(
                            (
                                st1,
                                Some(
                                    (
                                        Some(iri),
                                        !has_colon_or_slash(term) && simple && (ends_with_gen_delim(iri)
                                            || blank_id_syntax(iri)),
                                    ),
                                ),
                            ),
                        )
                    },
                }
            },
            _ => Err(ErrorCode::InvalidIriMapping),
        }
    } else {
        match position_from(term, ':', 1) {
            Some(i) => {
                let prefix = term.subrange(0, i);
                let suffix = term.subrange(i + 1, term.len() as int);
                match define_if_local(st, d, prefix, protected, env, opts, rf, tf) {
                    Err(e) => Err(e),
                    Ok(st1) => match st1.active.get(prefix) {
                        Some(p) => if p.iri is Some {
                            Ok((st1, Some((Some(p.iri->0 + suffix), false))))
                        } else {
                            Ok((st1, Some((Some(term), false))))
                        },
                        None => Ok((st1, Some((Some(term), false)))),
                    },
                }
            },
            None => if position(term, '/') is Some {
                match expand_iri_defining(st, d, term, false, true, protected, env, opts, rf, tf) {
                    Err(e) => Err(e),
                    Ok((st1, Some(iri))) => if iri_syntax(iri) {
                        Ok((st1, Some((Some(iri), false))))
                    } else {
                        Err(ErrorCode::InvalidIriMapping)
                    },
                    Ok((st1, None)) => Err(ErrorCode::InvalidIriMapping),
                }
            } else if term == "@type"@ {
                Ok((st, Some((Some("@type"@), false))))
            } else if st.active.vocab is Some {
                Ok((st, Some((Some(st.active.vocab->0 + term), false))))
            } else {
                Err(ErrorCode::InvalidIriMapping)
            },
        }
    }
}

/// The state in which a term whose definition is passed over stands for what it stood for before.
pub open spec fn restored(st: State, term: Seq<char>, previous: Option<TermDefinitionModel>) -> State {
    match previous {
        Some(p) => State {
            active: ActiveContextModel { terms: assoc_with(st.active.terms, term, p), ..st.active },
            ..st
        },
        None => st,
    }
}

/// The definition of a reverse property.
pub open spec fn define_reverse(
    st: State,
    d: JsonView,
    term: Seq<char>,
    value: Seq<(Seq<char>, JsonView)>,
    def: TermDefinitionModel,
    previous: Option<TermDefinitionModel>,
    protected: bool,
    env: Env,
    opts: Options,
    rf: nat,
    tf: nat,
) -> Result<State, ErrorCode>
    decreases rf, d, tf, 2int,
{
    if assoc_has(value, "@id"@) || assoc_has(value, "@nest"@) {
        Err(ErrorCode::InvalidReverseProperty)
    } else {
        match assoc_get(value, "@reverse"@) {
            Some(JsonView::Text(r)) => if has_keyword_form(r) {
                Ok(restored(st, term, previous))
            } else {
                match expand_iri_defining(st, d, r, false, true, protected, env, opts, rf, tf) {
                    Err(e) => Err(e),
                    Ok((st1, None)) => Err(ErrorCode::InvalidIriMapping),
                    Ok((st1, Some(iri))) => if !names_node(iri) {
                        Err(ErrorCode::InvalidIriMapping)
                    } else {
                        let container = match assoc_get(value, "@container"@) {
                            None => Ok(Seq::empty()),
                            Some(JsonView::Null) => Ok(Seq::empty()),
                            Some(JsonView::Text(c)) => if c == "@set"@ {
                                Ok(seq![ContainerKind::Unordered])
                            } else if c == "@index"@ {
                                Ok(seq![ContainerKind::Index])
                            } else {
                                Err(ErrorCode::InvalidReverseProperty)
                            },
                            Some(_) => Err(ErrorCode::InvalidReverseProperty),
                        };
                        match container {
                            Err(e) => Err(e),
                            Ok(ks) => finish_term(
                                st1,
                                term,
                                TermDefinitionModel { iri: Some(iri), reverse: true, container: ks, ..def },
                                previous,
                                opts,
                            ),
                        }
                    },
                }
            },
            _ => Err(ErrorCode::InvalidIriMapping),
        }
    }
}

/// What the entries of the definition of a term other than `@id`, `@type`
/// and `@reverse` add to the definition.
pub open spec fn define_rest(
    active: ActiveContextModel,
    d: JsonView,
    term: Seq<char>,
    value: Seq<(Seq<char>, JsonView)>,
    def: TermDefinitionModel,
    env: Env,
    opts: Options,
    rf: nat,
    tf: nat,
) -> Result<TermDefinitionModel, ErrorCode>
    decreases rf, d, tf, 2int,
{
    let container = match assoc_get(value, "@container"@) {
        None => Ok(Seq::empty()),
        Some(c) => container_of(c),
    };
    if container is Err {
        Err(container->Err_0)
    } else {
        let ks = container->Ok_0;
        let typ = if ks.contains(ContainerKind::Type) && def.typ is None {
            Some("@id"@)
        } else {
            def.typ
        };
        if ks.contains(ContainerKind::Type) && typ != Some("@id"@) && typ != Some("@vocab"@) {
            Err(ErrorCode::InvalidTypeMapping)
        } else {
            let index = match assoc_get(value, "@index"@) {
                None => Ok(None),
                Some(JsonView::Text(i)) => if ks.contains(ContainerKind::Index) && !has_keyword_form(i) {
                    Ok(Some(i))
                } else {
                    Err(ErrorCode::InvalidTermDefinition)
                },
                Some(_) => Err(ErrorCode::InvalidTermDefinition),
            };
            let scoped = match assoc_get(value, "@context"@) {
                None => Ok(None),
                Some(c) => if rf == 0 {
                    Err(ErrorCode::ContextOverflow)
                } else {
                    match process_value(
                        active,
                        c,
                        env,
                        Options { override_protected: true, propagate: true, validate_scoped: false },
                        (rf - 1) as nat,
                    ) {
                        Ok(_) => Ok(Some(c)),
                        Err(_) => Err(ErrorCode::InvalidScopedContext),
                    }
                },
            };
            let language = match assoc_get(value, "@language"@) {
                None => Ok(None),
                Some(JsonView::Null) => Ok(Some(Nullable::Null)),
                Some(JsonView::Text(l)) => Ok(Some(Nullable::Given(l))),
                Some(_) => Err(ErrorCode::InvalidLanguageMapping),
            };
            let direction = match assoc_get(value, "@direction"@) {
                None => Ok(None),
                Some(JsonView::Null) => Ok(Some(Nullable::Null)),
                Some(JsonView::Text(t)) => if t == "ltr"@ {
                    Ok(Some(Nullable::Given(Direction::Ltr)))
                } else if t == "rtl"@ {
                    Ok(Some(Nullable::Given(Direction::Rtl)))
                } else {
                    Err(ErrorCode::InvalidBaseDirection)
                },
                Some(_) => Err(ErrorCode::InvalidBaseDirection),
            };
            let nest = match assoc_get(value, "@nest"@) {
                None => Ok(None),
                Some(JsonView::Text(n)) => if is_keyword(n) && n != "@nest"@ {
                    Err(ErrorCode::InvalidNestValue)
                } else {
                    Ok(Some(n))
                },
                Some(_) => Err(ErrorCode::InvalidNestValue),
            };
            let prefix = match assoc_get(value, "@prefix"@) {
                None => Ok(def.prefix),
                Some(JsonView::Boolean(b)) => if has_colon_or_slash(term) {
                    Err(ErrorCode::InvalidTermDefinition)
                } else if b && def.iri is Some && is_keyword(def.iri->0) {
                    Err(ErrorCode::InvalidTermDefinition)
                } else {
                    Ok(b)
                },
                Some(_) => if has_colon_or_slash(term) {
                    Err(ErrorCode::InvalidTermDefinition)
                } else {
                    Err(ErrorCode::InvalidPrefixValue)
                },
            };
            if index is Err {
                Err(index->Err_0)
            } else if scoped is Err {
                Err(scoped->Err_0)
            } else if language is Err {
                Err(language->Err_0)
            } else if direction is Err {
                Err(direction->Err_0)
            } else if nest is Err {
                Err(nest->Err_0)
            } else if prefix is Err {
                Err(prefix->Err_0)
            } else if !definition_keys_allowed(value, value.len() as int) {
                Err(ErrorCode::InvalidTermDefinition)
            } else {
                Ok(
                    TermDefinitionModel {
                        typ,
                        container: ks,
                        index: index->Ok_0,
                        context: scoped->Ok_0,
                        language: if def.typ is None {
                            language->Ok_0
                        } else {
                            None
                        },
                        direction: if def.typ is None {
                            direction->Ok_0
                        } else {
                            None
                        },
                        nest: nest->Ok_0,
                        prefix: prefix->Ok_0,
                        ..def
                    },
                )
            }
        }
    }
}

/// Gives the term being defined what it stands for and what the other
/// entries of its definition say, and records the definition.
pub open spec fn define_mapped(
    st: State,
    d: JsonView,
    term: Seq<char>,
    value: Seq<(Seq<char>, JsonView)>,
    def: TermDefinitionModel,
    simple: bool,
    object: bool,
    previous: Option<TermDefinitionModel>,
    protected: bool,
    env: Env,
    opts: Options,
    rf: nat,
    tf: nat,
) -> Result<State, ErrorCode>
    decreases rf, d, tf, 3int,
{
    if assoc_has(value, "@reverse"@) {
        define_reverse(st, d, term, value, def, previous, protected, env, opts, rf, tf)
    } else {
        match define_iri(st, d, term, value, simple, protected, env, opts, rf, tf) {
            Err(e) => Err(e),
            Ok((st2, None)) => Ok(restored(st2, term, previous)),
            Ok((st2, Some((iri, prefix)))) => {
                let def2 = TermDefinitionModel { iri, prefix, ..def };
                if !object {
                    finish_term(st2, term, def2, previous, opts)
                } else {
                    match define_rest(st2.active, d, term, value, def2, env, opts, rf, tf) {
                        Err(e) => Err(e),
                        Ok(def3) => finish_term(st2, term, def3, previous, opts),
                    }
                }
            },
        }
    }
}

/// Whether the definition of a term is protected: what its `@protected`
/// entry says, or `protected` where it has none.
pub open spec fn guard_of(value: Seq<(Seq<char>, JsonView)>, protected: bool) -> Result<bool, ErrorCode> {
    match assoc_get(value, "@protected"@) {
        None => Ok(protected),
        Some(JsonView::Boolean(b)) => Ok(b),
        Some(_) => Err(ErrorCode::InvalidProtectedValue),
    }
}

/// Defines `term` as `written`: drops what the term stood for, and builds the definition anew.
pub open spec fn define_written(
    st: State,
    d: JsonView,
    term: Seq<char>,
    written: JsonView,
    protected: bool,
    env: Env,
    opts: Options,
    rf: nat,
    tf: nat,
) -> Result<State, ErrorCode>
    decreases rf, d, tf, 4int,
{
    match definition_object(written) {
        None => Err(ErrorCode::InvalidTermDefinition),
        Some(value) => {
            let previous = st.active.get(term);
            let st0 = State {
                active: ActiveContextModel { terms: assoc_without(st.active.terms, term), ..st.active },
                defined: assoc_with(st.defined, term, false),
            };
            match guard_of(value, protected) {
                Err(e) => Err(e),
                Ok(guarded) => match define_type(st0, d, value, protected, env, opts, rf, tf) {
                    Err(e) => Err(e),
                    Ok((st1, typ)) => define_mapped(
                        st1,
                        d,
                        term,
                        value,
                        TermDefinitionModel { typ, ..TermDefinitionModel::plain(None, guarded) },
                        written is Text,
                        written is Object,
                        previous,
                        protected,
                        env,
                        opts,
                        rf,
                        tf,
                    ),
                },
            }
        },
    }
}

/// Defines `term` as the context `d` has it.
pub open spec fn define_term(
    st: State,
    d: JsonView,
    term: Seq<char>,
    protected: bool,
    env: Env,
    opts: Options,
    rf: nat,
    tf: nat,
) -> Result<State, ErrorCode>
    decreases rf, d, tf, 5int,
{
    match assoc_get(st.defined, term) {
        Some(true) => Ok(st),
        Some(false) => Err(ErrorCode::CyclicIriMapping),
        None => if term.len() == 0 {
            Err(ErrorCode::InvalidTermDefinition)
        } else if d.get(term) is None {
            Err(ErrorCode::InvalidTermDefinition)
        } else if term == "@type"@ && !type_definition_allowed(d.get(term)->0) {
            Err(ErrorCode::KeywordRedefinition)
        } else if term != "@type"@ && is_keyword(term) {
            Err(ErrorCode::KeywordRedefinition)
        } else if term != "@type"@ && has_keyword_form(term) {
            Ok(State { defined: assoc_with(st.defined, term, false), ..st })
        } else {
            define_written(st, d, term, d.get(term)->0, protected, env, opts, rf, tf)
        },
    }
}

/// Records the definition of a term, unless the term was protected and is defined otherwise.
pub open spec fn finish_term(
    st: State,
    term: Seq<char>,
    def: TermDefinitionModel,
    previous: Option<TermDefinitionModel>,
    opts: Options,
) -> Result<State, ErrorCode> {
    let kept = if !opts.override_protected && previous is Some && previous->0.protected {
        if same_definition(def, previous->0) {
            Ok(previous->0)
        } else {
            Err(ErrorCode::ProtectedTermRedefinition)
        }
    } else {
        Ok(def)
    };
    match kept {
        Err(e) => Err(e),
        Ok(def) => Ok(
            State {
                active: ActiveContextModel { terms: assoc_with(st.active.terms, term, def), ..st.active },
                defined: assoc_with(st.defined, term, true),
            },
        ),
    }
}

/// Whether `key` is an entry of a context definition that defines no term.
pub open spec fn is_context_keyword(key: Seq<char>) -> bool {
    key == "@base"@ || key == "@direction"@ || key == "@import"@ || key == "@language"@ || key
        == "@propagate"@ || key == "@protected"@ || key == "@version"@ || key == "@vocab"@
}

/// Defines the terms of the context `d` from its entry `k` on.
pub open spec fn define_terms(
    st: State,
    d: JsonView,
    k: int,
    protected: bool,
    env: Env,
    opts: Options,
    rf: nat,
) -> Result<State, ErrorCode>
    decreases rf, d, entries_of(d).len() + 1, entries_of(d).len() - k,
{
    let entries = entries_of(d);
    if k < 0 || k >= entries.len() {
        Ok(st)
    } else if is_context_keyword(entries[k].0) {
        define_terms(st, d, k + 1, protected, env, opts, rf)
    } else {
        match define_term(st, d, entries[k].0, protected, env, opts, rf, entries.len()) {
            Err(e) => Err(e),
            Ok(st1) => define_terms(st1, d, k + 1, protected, env, opts, rf),
        }
    }
}

/// The entries of an object; none for another value.
pub open spec fn entries_of(d: JsonView) -> Seq<(Seq<char>, JsonView)> {
    match d {
        JsonView::Object(entries) => entries,
        _ => Seq::empty(),
    }
}

/// The IRI of a remote context: the reference `s` resolved against the IRI
/// of the document, or `s` itself where it is an IRI and cannot be resolved against one.
pub open spec fn remote_url(s: Seq<char>, base: Option<Seq<char>>) -> Option<Seq<char>> {
    if base is Some && iri_syntax(base->0) && can_resolve(s, base->0) {
        Some(resolved_iri(s, base->0))
    } else if iri_syntax(s) {
        Some(s)
    } else {
        None
    }
}

/// The base IRI after the `@base` entry of a context definition.
pub open spec fn base_of(active: ActiveContextModel, d: JsonView, env: Env) -> Result<Option<Seq<char>>, ErrorCode> {
    match d.get("@base"@) {
        None => Ok(active.base),
        Some(v) => if env.remote.len() > 0 {
            Ok(active.base)
        } else {
            match v {
                JsonView::Null => Ok(None),
                JsonView::Text(s) => if iri_syntax(s) {
                    Ok(Some(s))
                } else if active.base is Some && iri_syntax(active.base->0) && can_resolve(s, active.base->0) {
                    Ok(Some(resolved_iri(s, active.base->0)))
                } else {
                    Err(ErrorCode::InvalidBaseIri)
                },
                _ => Err(ErrorCode::InvalidBaseIri),
            }
        },
    }
}

/// The vocabulary mapping after the `@vocab` entry of a context definition.
pub open spec fn vocab_of(active: ActiveContextModel, d: JsonView) -> Result<Option<Seq<char>>, ErrorCode> {
    match d.get("@vocab"@) {
        None => Ok(active.vocab),
        Some(JsonView::Null) => Ok(None),
        Some(JsonView::Text(s)) => match expand_iri(active, s, true, true) {
            Some(iri) => if names_node(iri) {
                Ok(Some(iri))
            } else {
                Err(ErrorCode::InvalidVocabMapping)
            },
            None => Err(ErrorCode::InvalidVocabMapping),
        },
        Some(_) => Err(ErrorCode::InvalidVocabMapping),
    }
}

/// The default language after the `@language` entry of a context definition.
pub open spec fn language_of(active: ActiveContextModel, d: JsonView) -> Result<Option<Seq<char>>, ErrorCode> {
    match d.get("@language"@) {
        None => Ok(active.language),
        Some(JsonView::Null) => Ok(None),
        Some(JsonView::Text(s)) => Ok(Some(s)),
        Some(_) => Err(ErrorCode::InvalidDefaultLanguage),
    }
}

/// The default direction after the `@direction` entry of a context definition.
pub open spec fn direction_of(active: ActiveContextModel, d: JsonView) -> Result<Option<Direction>, ErrorCode> {
    match d.get("@direction"@) {
        None => Ok(active.direction),
        Some(JsonView::Null) => Ok(None),
        Some(JsonView::Text(s)) => if s == "ltr"@ {
            Ok(Some(Direction::Ltr))
        } else if s == "rtl"@ {
            Ok(Some(Direction::Rtl))
        } else {
            Err(ErrorCode::InvalidBaseDirection)
        },
        Some(_) => Err(ErrorCode::InvalidBaseDirection),
    }
}

/// What an entry of a context definition that must be a truth value holds; `default` where it is not there.
pub open spec fn flag_of(d: JsonView, key: Seq<char>, default: bool, error: ErrorCode) -> Result<bool, ErrorCode> {
    match d.get(key) {
        None => Ok(default),
        Some(JsonView::Boolean(b)) => Ok(b),
        Some(_) => Err(error),
    }
}

/// The settings of a context definition, but for the base IRI: the
/// vocabulary mapping, the default language and direction, and whether its
/// terms are protected.
pub open spec fn settings_of(active: ActiveContextModel, d: JsonView) -> Result<
    (ActiveContextModel, bool),
    ErrorCode,
> {
    match vocab_of(active, d) {
        Err(e) => Err(e),
        Ok(vocab) => match language_of(active, d) {
            Err(e) => Err(e),
            Ok(language) => match direction_of(active, d) {
                Err(e) => Err(e),
                Ok(direction) => match flag_of(d, "@propagate"@, true, ErrorCode::InvalidPropagateValue) {
                    Err(e) => Err(e),
                    Ok(_) => match flag_of(d, "@protected"@, false, ErrorCode::InvalidProtectedValue) {
                        Err(e) => Err(e),
                        Ok(protected) => Ok(
                            (ActiveContextModel { vocab, language, direction, ..active }, protected),
                        ),
                    },
                },
            },
        },
    }
}

/// Processes the entries of a context definition: the base IRI, the
/// vocabulary mapping, the default language and direction, and then the terms.
pub open spec fn process_entries(
    active: ActiveContextModel,
    d: JsonView,
    env: Env,
    opts: Options,
    rf: nat,
) -> Result<ActiveContextModel, ErrorCode>
    decreases rf, d, entries_of(d).len() + 2, 0int,
{
    match base_of(active, d, env) {
        Err(e) => Err(e),
        Ok(base) => match settings_of(ActiveContextModel { base, ..active }, d) {
            Err(e) => Err(e),
            Ok((a2, protected)) => match define_terms(
                State { active: a2, defined: Seq::empty() },
                d,
                0,
                protected,
                env,
                opts,
                rf,
            ) {
                Err(e) => Err(e),
                Ok(st) => Ok(st.active),
            },
        },
    }
}

/// What is to be processed in the place of a context definition that imports another.
pub open spec fn import_of(d: JsonView, s: Seq<char>, env: Env, rf: nat) -> Result<JsonView, ErrorCode> {
    match remote_url(s, env.base) {
        None => Err(ErrorCode::InvalidImportValue),
        Some(url) => if rf == 0 {
            Err(ErrorCode::ContextOverflow)
        } else {
            match (env.found)(url) {
                None => Err(ErrorCode::LoadingRemoteContextFailed),
                Some((_, doc)) => match doc.get("@context"@) {
                    Some(JsonView::Object(imported)) => if assoc_has(imported, "@import"@) {
                        Err(ErrorCode::InvalidContextEntry)
                    } else {
                        Ok(JsonView::Object(entries_of(d) + imported))
                    },
                    _ => Err(ErrorCode::InvalidRemoteContext),
                },
            }
        },
    }
}

/// Processes a context definition: checks `@version`, brings in what `@import` names, and
/// processes the entries.
pub open spec fn process_definition(
    active: ActiveContextModel,
    d: JsonView,
    env: Env,
    opts: Options,
    rf: nat,
) -> Result<ActiveContextModel, ErrorCode>
    decreases rf, d, entries_of(d).len() + 3, 0int,
{
    if d.get("@version"@) is Some && d.get("@version"@) != Some(JsonView::Number("1.1"@)) {
        Err(ErrorCode::InvalidVersionValue)
    } else {
        match d.get("@import"@) {
            None => process_entries(active, d, env, opts, rf),
            Some(JsonView::Text(s)) => match import_of(d, s, env, rf) {
                Err(e) => Err(e),
                Ok(merged) => if rf == 0 {
                    Err(ErrorCode::ContextOverflow)
                } else {
                    process_entries(active, merged, env, opts, (rf - 1) as nat)
                },
            },
            Some(_) => Err(ErrorCode::InvalidImportValue),
        }
    }
}

/// Processes one context: `null`, the reference of a remote context, or a context definition.
pub open spec fn process_context(
    active: ActiveContextModel,
    c: JsonView,
    env: Env,
    opts: Options,
    rf: nat,
) -> Result<ActiveContextModel, ErrorCode>
    decreases rf, c, entries_of(c).len() + 4, 0int,
{
    match c {
        JsonView::Null => if !opts.override_protected && active.has_protected_terms() {
            Err(ErrorCode::InvalidContextNullification)
        } else {
            Ok(
                ActiveContextModel {
                    previous: if opts.propagate {
                        None
                    } else {
                        Some(Box::new(active))
                    },
                    ..ActiveContextModel::empty(active.base)
                },
            )
        },
        JsonView::Text(s) => match remote_url(s, env.base) {
            None => Err(ErrorCode::LoadingRemoteContextFailed),
            Some(url) => if env.remote.contains(url) {
                if opts.validate_scoped {
                    Err(ErrorCode::RecursiveContextInclusion)
                } else {
                    Ok(active)
                }
            } else if rf == 0 {
                Err(ErrorCode::ContextOverflow)
            } else {
                match (env.found)(url) {
                    None => Err(ErrorCode::LoadingRemoteContextFailed),
                    Some((at, doc)) => match doc.get("@context"@) {
                        None => Err(ErrorCode::InvalidRemoteContext),
                        Some(remote) => process_value(
                            active,
                            remote,
                            Env { base: Some(at), remote: env.remote.push(url), ..env },
                            Options { propagate: true, ..opts },
                            (rf - 1) as nat,
                        ),
                    },
                }
            },
        },
        JsonView::Object(_) => process_definition(active, c, env, opts, rf),
        _ => Err(ErrorCode::InvalidLocalContext),
    }
}

/// Processes the contexts of an array from its item `k` on, each on the result of the one before.
pub open spec fn process_items(
    active: ActiveContextModel,
    items: Seq<JsonView>,
    k: int,
    env: Env,
    opts: Options,
    rf: nat,
) -> Result<ActiveContextModel, ErrorCode>
    decreases rf, items, 0nat, items.len() - k,
{
    if k < 0 || k >= items.len() {
        Ok(active)
    } else {
        match process_context(active, items[k], env, opts, rf) {
            Err(e) => Err(e),
            Ok(a) => process_items(a, items, k + 1, env, opts, rf),
        }
    }
}

/// Whether the context goes on to hold within the nodes below: what its
/// `@propagate` entry says, where it is a context definition that has one.
pub open spec fn propagates(local: JsonView, opts: Options) -> bool {
    match local.get("@propagate"@) {
        Some(JsonView::Boolean(b)) => b,
        _ => opts.propagate,
    }
}

/// Processes the value of an `@context` entry: one context, or several in order.
///
/// Where the context does not propagate, the result keeps `active` as the
/// context that holds again below.
pub open spec fn process_value(
    active: ActiveContextModel,
    local: JsonView,
    env: Env,
    opts: Options,
    rf: nat,
) -> Result<ActiveContextModel, ErrorCode>
    decreases rf, local, entries_of(local).len() + 5, 0int,
{
    let propagate = propagates(local, opts);
    let start = if !propagate && active.previous is None {
        ActiveContextModel { previous: Some(Box::new(active)), ..active }
    } else {
        active
    };
    let o = Options { propagate, ..opts };
    match local {
        JsonView::Array(items) => process_items(start, items, 0, env, o, rf),
        _ => process_context(start, local, env, o, rf),
    }
}

} // verus!
