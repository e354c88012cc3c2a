//! What holds of the processing of contexts.

use vstd::prelude::*;

use crate::assoc::{assoc_get, assoc_has, assoc_with, assoc_without, lemma_assoc_position, lemma_get_with, lemma_get_without_other};
use crate::context::{ActiveContextModel, TermDefinitionModel};
use crate::error::ErrorCode;
use crate::json::JsonView;
use crate::processing::model::{
    base_of, define_if_local, define_iri, define_mapped, define_reverse, define_term, define_terms,
    define_type, define_written, definition_object, entries_of, expand_iri_defining, finish_term, guard_of,
    import_of, is_context_keyword, process_context, process_definition, process_entries, process_items,
    process_value, propagates, remote_url, restored, same_definition, settings_of, Env, Options, State,
};
use crate::text::{begins_with, has_keyword_form, is_keyword, position, position_from};

verus! {

/// A `null` context leaves of the active context nothing but its base IRI,
/// and, where it does not propagate, the context to go back to.
pub proof fn lemma_null_context(active: ActiveContextModel, env: Env, opts: Options, rf: nat)
    ensures
        match process_context(active, JsonView::Null, env, opts, rf) {
            Ok(r) => r == (ActiveContextModel { previous: r.previous, ..ActiveContextModel::empty(active.base) })
                && (opts.propagate ==> r.previous is None),
            Err(e) => e == ErrorCode::InvalidContextNullification && !opts.override_protected
                && active.has_protected_terms(),
        },
{
}

/// After contexts of which the last is `null`, the active context is the
/// context without terms, but for its base IRI and the context to go back to.
pub proof fn lemma_null_context_resets(
    active: ActiveContextModel,
    items: Seq<JsonView>,
    k: int,
    env: Env,
    opts: Options,
    rf: nat,
)
    requires
        0 <= k < items.len(),
        items.last() == JsonView::Null,
        process_items(active, items, k, env, opts, rf) is Ok,
    ensures
        ({
            let r = process_items(active, items, k, env, opts, rf)->Ok_0;
            r == (ActiveContextModel { previous: r.previous, ..ActiveContextModel::empty(r.base) })
                && (opts.propagate ==> r.previous is None)
        }),
    decreases items.len() - k,
{
    match process_context(active, items[k], env, opts, rf) {
        Err(_) => {},
        Ok(a) => {
            if k + 1 < items.len() {
                lemma_null_context_resets(a, items, k + 1, env, opts, rf);
            } else {
                lemma_null_context(active, env, opts, rf);
                assert(process_items(a, items, k + 1, env, opts, rf) == Ok::<ActiveContextModel, ErrorCode>(a));
            }
        },
    }
}

/// After the contexts of an array of which the last is `null`, where the
/// processing propagates, the active context is the context without terms,
/// but for its base IRI.
pub proof fn lemma_array_ending_in_null_resets(
    active: ActiveContextModel,
    items: Seq<JsonView>,
    env: Env,
    opts: Options,
    rf: nat,
)
    requires
        items.len() > 0,
        items.last() == JsonView::Null,
        opts.propagate,
        process_value(active, JsonView::Array(items), env, opts, rf) is Ok,
    ensures
        ({
            let r = process_value(active, JsonView::Array(items), env, opts, rf)->Ok_0;
            r == ActiveContextModel::empty(r.base)
        }),
{
    assert(propagates(JsonView::Array(items), opts) == opts.propagate);
    lemma_null_context_resets(active, items, 0, env, opts, rf);
}

/// Whether `t` stands for `p` in `a`, and is protected.
pub open spec fn protected_as(a: ActiveContextModel, t: Seq<char>, p: TermDefinitionModel) -> bool {
    a.get(t) == Some(p) && p.protected
}

/// Without leave to override, a protected term cannot be given another definition.
pub proof fn lemma_redefinition_fails(
    st: State,
    term: Seq<char>,
    def: TermDefinitionModel,
    p: TermDefinitionModel,
    opts: Options,
)
    requires
        !opts.override_protected,
        p.protected,
    ensures
        match finish_term(st, term, def, Some(p), opts) {
            Ok(st1) => same_definition(def, p) && st1.active.get(term) == Some(p),
            Err(e) => !same_definition(def, p) && e == ErrorCode::ProtectedTermRedefinition,
        },
{
    lemma_get_with(st.active.terms, term, p, term);
}

/// With leave to override, the definition of a term is recorded as it is
/// given, whether or not the term was protected.
pub proof fn lemma_override_records(
    st: State,
    term: Seq<char>,
    def: TermDefinitionModel,
    previous: Option<TermDefinitionModel>,
    opts: Options,
)
    requires
        opts.override_protected,
    ensures
        finish_term(st, term, def, previous, opts) is Ok,
        finish_term(st, term, def, previous, opts)->Ok_0.active.get(term) == Some(def),
{
    lemma_get_with(st.active.terms, term, def, term);
}

/// Recording the definition of a term leaves the protected terms as they are.
proof fn lemma_finish_keeps(
    st: State,
    term: Seq<char>,
    def: TermDefinitionModel,
    previous: Option<TermDefinitionModel>,
    opts: Options,
    t: Seq<char>,
    p: TermDefinitionModel,
)
    requires
        !opts.override_protected,
        p.protected,
        if term == t {
            previous == Some(p)
        } else {
            st.active.get(t) == Some(p)
        },
    ensures
        finish_term(st, term, def, previous, opts) matches Ok(st1) ==> protected_as(st1.active, t, p),
{
    match finish_term(st, term, def, previous, opts) {
        Ok(st1) => {
            if term == t {
                lemma_get_with(st.active.terms, term, p, t);
            } else {
                lemma_get_with(st.active.terms, term, def, t);
                if previous is Some {
                    lemma_get_with(st.active.terms, term, previous->0, t);
                }
            }
        },
        Err(_) => {},
    }
}

/// Giving back to a term what it stood for leaves the protected terms as they are.
proof fn lemma_restored_keeps(
    st: State,
    term: Seq<char>,
    previous: Option<TermDefinitionModel>,
    t: Seq<char>,
    p: TermDefinitionModel,
)
    requires
        p.protected,
        if term == t {
            previous == Some(p)
        } else {
            st.active.get(t) == Some(p)
        },
    ensures
        protected_as(restored(st, term, previous).active, t, p),
{
    if previous is Some {
        lemma_get_with(st.active.terms, term, previous->0, t);
    }
}

/// Defining a term where the context has it leaves the other protected terms as they are.
proof fn lemma_define_if_local_keeps(
    st: State,
    d: JsonView,
    term: Seq<char>,
    protected: bool,
    env: Env,
    opts: Options,
    rf: nat,
    tf: nat,
    t: Seq<char>,
    p: TermDefinitionModel,
)
    requires
        !opts.override_protected,
        protected_as(st.active, t, p),
    ensures
        define_if_local(st, d, term, protected, env, opts, rf, tf) matches Ok(st1) ==> protected_as(
            st1.active,
            t,
            p,
        ),
    decreases rf, d, tf, 0int,
{
    if d.has(term) && assoc_get(st.defined, term) != Some(true) && tf != 0 {
        lemma_define_term_keeps(st, d, term, protected, env, opts, rf, (tf - 1) as nat, t, p);
    }
}

/// Finding what a value stands for leaves the protected terms as they are.
proof fn lemma_expand_keeps(
    st: State,
    d: JsonView,
    value: Seq<char>,
    document_relative: bool,
    vocab: bool,
    protected: bool,
    env: Env,
    opts: Options,
    rf: nat,
    tf: nat,
    t: Seq<char>,
    p: TermDefinitionModel,
)
    requires
        !opts.override_protected,
        protected_as(st.active, t, p),
    ensures
        expand_iri_defining(st, d, value, document_relative, vocab, protected, env, opts, rf, tf) matches Ok(
            r,
        ) ==> protected_as(r.0.active, t, p),
    decreases rf, d, tf, 1int,
{
    if !is_keyword(value) && !has_keyword_form(value) {
        lemma_define_if_local_keeps(st, d, value, protected, env, opts, rf, tf, t, p);
        match define_if_local(st, d, value, protected, env, opts, rf, tf) {
            Err(_) => {},
            Ok(st1) => {
                let prefix = match position_from(value, ':', 1) {
                    Some(i) => if value.subrange(0, i) == "_"@ || begins_with(
                        value.subrange(i + 1, value.len() as int),
                        "//"@,
                    ) {
                        None
                    } else {
                        Some(value.subrange(0, i))
                    },
                    None => None,
                };
                if !(crate::context::decided_by_term(st1.active, value, vocab) || prefix is None) {
                    lemma_define_if_local_keeps(st1, d, prefix->0, protected, env, opts, rf, tf, t, p);
                }
            },
        }
    }
}

/// Finding the type of a term leaves the protected terms as they are.
proof fn lemma_define_type_keeps(
    st: State,
    d: JsonView,
    value: Seq<(Seq<char>, JsonView)>,
    protected: bool,
    env: Env,
    opts: Options,
    rf: nat,
    tf: nat,
    t: Seq<char>,
    p: TermDefinitionModel,
)
    requires
        !opts.override_protected,
        protected_as(st.active, t, p),
    ensures
        define_type(st, d, value, protected, env, opts, rf, tf) matches Ok(r) ==> protected_as(r.0.active, t, p),
    decreases rf, d, tf, 2int,
{
    match assoc_get(value, "@type"@) {
        Some(JsonView::Text(ty)) => {
            lemma_expand_keeps(st, d, ty, false, true, protected, env, opts, rf, tf, t, p);
        },
        _ => {},
    }
}

/// Finding what a term stands for leaves the protected terms as they are.
proof fn lemma_define_iri_keeps(
    st: State,
    d: JsonView,
    term: Seq<char>,
    value: Seq<(Seq<char>, JsonView)>,
    simple: bool,
    protected: bool,
    env: Env,
    opts: Options,
    rf: nat,
    tf: nat,
    t: Seq<char>,
    p: TermDefinitionModel,
)
    requires
        !opts.override_protected,
        protected_as(st.active, t, p),
    ensures
        define_iri(st, d, term, value, simple, protected, env, opts, rf, tf) matches Ok(r) ==> protected_as(
            r.0.active,
            t,
            p,
        ),
    decreases rf, d, tf, 2int,
{
    let id = assoc_get(value, "@id"@);
    if id is Some && id != Some(JsonView::Text(term)) {
        match id->0 {
            JsonView::Text(s) => {
                if !(!is_keyword(s) && has_keyword_form(s)) {
                    lemma_expand_keeps(st, d, s, false, true, protected, env, opts, rf, tf, t, p);
                    match expand_iri_defining(st, d, s, false, true, protected, env, opts, rf, tf) {
                        Ok((st1, Some(iri))) => {
                            let st2 = State { defined: assoc_with(st1.defined, term, true), ..st1 };
                            lemma_expand_keeps(st2, d, term, false, true, protected, env, opts, rf, tf, t, p);
                        },
                        _ => {},
                    }
                }
            },
            _ => {},
        }
    } else {
        match position_from(term, ':', 1) {
            Some(i) => {
                lemma_define_if_local_keeps(st, d, term.subrange(0, i), protected, env, opts, rf, tf, t, p);
            },
            None => {
                if position(term, '/') is Some {
                    lemma_expand_keeps(st, d, term, false, true, protected, env, opts, rf, tf, t, p);
                }
            },
        }
    }
}

/// Defining a reverse property leaves the protected terms as they are.
proof fn lemma_define_reverse_keeps(
    st: State,
    d: JsonView,
    term: Seq<char>,
    value: Seq<(Seq<char>, JsonView)>,
    def: TermDefinitionModel,
    previous: Option<TermDefinitionModel>,
    protected: bool,
    env: Env,
    opts: Options,
    rf: nat,
    tf: nat,
    t: Seq<char>,
    p: TermDefinitionModel,
)
    requires
        !opts.override_protected,
        p.protected,
        if term == t {
            previous == Some(p)
        } else {
            st.active.get(t) == Some(p)
        },
    ensures
        define_reverse(st, d, term, value, def, previous, protected, env, opts, rf, tf) matches Ok(st1)
            ==> protected_as(st1.active, t, p),
    decreases rf, d, tf, 2int,
{
    if !(assoc_has(value, "@id"@) || assoc_has(value, "@nest"@)) {
        match assoc_get(value, "@reverse"@) {
            Some(JsonView::Text(r)) => {
                if has_keyword_form(r) {
                    lemma_restored_keeps(st, term, previous, t, p);
                } else {
                    if term != t {
                        lemma_expand_keeps(st, d, r, false, true, protected, env, opts, rf, tf, t, p);
                    }
                    match expand_iri_defining(st, d, r, false, true, protected, env, opts, rf, tf) {
                        Ok((st1, Some(iri))) => {
                            let ks = match assoc_get(value, "@container"@) {
                                Some(JsonView::Text(c)) => if c == "@set"@ {
                                    seq![crate::syntax::context::ContainerKind::Unordered]
                                } else {
                                    seq![crate::syntax::context::ContainerKind::Index]
                                },
                                _ => Seq::empty(),
                            };
                            lemma_finish_keeps(
                                st1,
                                term,
                                TermDefinitionModel { iri: Some(iri), reverse: true, container: ks, ..def },
                                previous,
                                opts,
                                t,
                                p,
                            );
                        },
                        _ => {},
                    }
                }
            },
            _ => {},
        }
    }
}

/// Giving a term what it stands for leaves the protected terms as they are.
proof fn lemma_define_mapped_keeps(
    st: State,
    d: JsonView,
    term: Seq<char>,
    value: Seq<(Seq<char>, JsonView)>,
    def: TermDefinitionModel,
    simple: bool,
    object: bool,
    previous: Option<TermDefinitionModel>,
    protected: bool,
    env: Env,
    opts: Options,
    rf: nat,
    tf: nat,
    t: Seq<char>,
    p: TermDefinitionModel,
)
    requires
        !opts.override_protected,
        p.protected,
        if term == t {
            previous == Some(p)
        } else {
            st.active.get(t) == Some(p)
        },
    ensures
        define_mapped(st, d, term, value, def, simple, object, previous, protected, env, opts, rf, tf) matches Ok(
            st1,
        ) ==> protected_as(st1.active, t, p),
    decreases rf, d, tf, 3int,
{
    if assoc_has(value, "@reverse"@) {
        lemma_define_reverse_keeps(st, d, term, value, def, previous, protected, env, opts, rf, tf, t, p);
    } else {
        if term != t {
            lemma_define_iri_keeps(st, d, term, value, simple, protected, env, opts, rf, tf, t, p);
        }
        match define_iri(st, d, term, value, simple, protected, env, opts, rf, tf) {
            Err(_) => {},
            Ok((st2, None)) => {
                lemma_restored_keeps(st2, term, previous, t, p);
            },
            Ok((st2, Some((iri, prefix)))) => {
                let def2 = TermDefinitionModel { iri, prefix, ..def };
                if !object {
                    lemma_finish_keeps(st2, term, def2, previous, opts, t, p);
                } else {
                    match crate::processing::model::define_rest(st2.active, d, term, value, def2, env, opts, rf, tf) {
                        Err(_) => {},
                        Ok(def3) => {
                            lemma_finish_keeps(st2, term, def3, previous, opts, t, p);
                        },
                    }
                }
            },
        }
    }
}

/// Defining a term as it is written leaves the protected terms as they are.
proof fn lemma_define_written_keeps(
    st: State,
    d: JsonView,
    term: Seq<char>,
    written: JsonView,
    protected: bool,
    env: Env,
    opts: Options,
    rf: nat,
    tf: nat,
    t: Seq<char>,
    p: TermDefinitionModel,
)
    requires
        !opts.override_protected,
        protected_as(st.active, t, p),
    ensures
        define_written(st, d, term, written, protected, env, opts, rf, tf) matches Ok(st1) ==> protected_as(
            st1.active,
            t,
            p,
        ),
    decreases rf, d, tf, 4int,
{
    match definition_object(written) {
        None => {},
        Some(value) => {
            let previous = st.active.get(term);
            let st0 = State {
                active: ActiveContextModel { terms: assoc_without(st.active.terms, term), ..st.active },
                defined: assoc_with(st.defined, term, false),
            };
            if term != t {
                lemma_get_without_other(st.active.terms, term, t);
            }
            match guard_of(value, protected) {
                Err(_) => {},
                Ok(guarded) => {
                    if term != t {
                        lemma_define_type_keeps(st0, d, value, protected, env, opts, rf, tf, t, p);
                    }
                    match define_type(st0, d, value, protected, env, opts, rf, tf) {
                        Err(_) => {},
                        Ok((st1, typ)) => {
                            lemma_define_mapped_keeps(
                                st1,
                                d,
                                term,
                                value,
                                TermDefinitionModel { typ, ..TermDefinitionModel::plain(None, guarded) },
                                written is Text,
                                written is Object,
                                previous,
                                protected,
                                env,
                                opts,
                                rf,
                                tf,
                                t,
                                p,
                            );
                        },
                    }
                },
            }
        },
    }
}

/// Defining a term leaves the protected terms as they are.
proof fn lemma_define_term_keeps(
    st: State,
    d: JsonView,
    term: Seq<char>,
    protected: bool,
    env: Env,
    opts: Options,
    rf: nat,
    tf: nat,
    t: Seq<char>,
    p: TermDefinitionModel,
)
    requires
        !opts.override_protected,
        protected_as(st.active, t, p),
    ensures
        define_term(st, d, term, protected, env, opts, rf, tf) matches Ok(st1) ==> protected_as(st1.active, t, p),
    decreases rf, d, tf, 5int,
{
    if assoc_get(st.defined, term) is None && term.len() != 0 && d.get(term) is Some {
        lemma_define_written_keeps(st, d, term, d.get(term)->0, protected, env, opts, rf, tf, t, p);
    }
}

/// Defining the terms of a context leaves the protected terms as they are.
proof fn lemma_define_terms_keeps(
    st: State,
    d: JsonView,
    k: int,
    protected: bool,
    env: Env,
    opts: Options,
    rf: nat,
    t: Seq<char>,
    p: TermDefinitionModel,
)
    requires
        !opts.override_protected,
        protected_as(st.active, t, p),
    ensures
        define_terms(st, d, k, protected, env, opts, rf) matches Ok(st1) ==> protected_as(st1.active, t, p),
    decreases rf, d, entries_of(d).len() + 1, entries_of(d).len() - k,
{
    let entries = entries_of(d);
    if 0 <= k < entries.len() {
        if is_context_keyword(entries[k].0) {
            lemma_define_terms_keeps(st, d, k + 1, protected, env, opts, rf, t, p);
        } else {
            lemma_define_term_keeps(st, d, entries[k].0, protected, env, opts, rf, entries.len(), t, p);
            match define_term(st, d, entries[k].0, protected, env, opts, rf, entries.len()) {
                Err(_) => {},
                Ok(st1) => {
                    lemma_define_terms_keeps(st1, d, k + 1, protected, env, opts, rf, t, p);
                },
            }
        }
    }
}

/// Processing the entries of a context definition leaves the protected terms as they are.
proof fn lemma_process_entries_keeps(
    active: ActiveContextModel,
    d: JsonView,
    env: Env,
    opts: Options,
    rf: nat,
    t: Seq<char>,
    p: TermDefinitionModel,
)
    requires
        !opts.override_protected,
        protected_as(active, t, p),
    ensures
        process_entries(active, d, env, opts, rf) matches Ok(r) ==> protected_as(r, t, p),
    decreases rf, d, entries_of(d).len() + 2, 0int,
{
    match base_of(active, d, env) {
        Err(_) => {},
        Ok(base) => match settings_of(ActiveContextModel { base, ..active }, d) {
            Err(_) => {},
            Ok((a2, protected)) => {
                assert(a2.terms == active.terms);
                lemma_define_terms_keeps(State { active: a2, defined: Seq::empty() }, d, 0, protected, env, opts, rf, t, p);
            },
        },
    }
}

/// Processing a context definition leaves the protected terms as they are.
proof fn lemma_process_definition_keeps(
    active: ActiveContextModel,
    d: JsonView,
    env: Env,
    opts: Options,
    rf: nat,
    t: Seq<char>,
    p: TermDefinitionModel,
)
    requires
        !opts.override_protected,
        protected_as(active, t, p),
    ensures
        process_definition(active, d, env, opts, rf) matches Ok(r) ==> protected_as(r, t, p),
    decreases rf, d, entries_of(d).len() + 3, 0int,
{
    match d.get("@import"@) {
        None => {
            lemma_process_entries_keeps(active, d, env, opts, rf, t, p);
        },
        Some(JsonView::Text(s)) => match import_of(d, s, env, rf) {
            Err(_) => {},
            Ok(merged) => {
                if rf != 0 {
                    lemma_process_entries_keeps(active, merged, env, opts, (rf - 1) as nat, t, p);
                }
            },
        },
        Some(_) => {},
    }
}

/// Processing one context leaves the protected terms as they are.
proof fn lemma_process_context_keeps(
    active: ActiveContextModel,
    c: JsonView,
    env: Env,
    opts: Options,
    rf: nat,
    t: Seq<char>,
    p: TermDefinitionModel,
)
    requires
        !opts.override_protected,
        protected_as(active, t, p),
    ensures
        process_context(active, c, env, opts, rf) matches Ok(r) ==> protected_as(r, t, p),
    decreases rf, c, entries_of(c).len() + 4, 0int,
{
    match c {
        JsonView::Null => {
            lemma_assoc_position(active.terms, t);
            let i = crate::assoc::assoc_position(active.terms, t)->0;
            assert(active.terms[i].1.protected);
        },
        JsonView::Text(s) => match remote_url(s, env.base) {
            None => {},
            Some(url) => {
                if !env.remote.contains(url) && rf != 0 {
                    match (env.found)(url) {
                        None => {},
                        Some((at, doc)) => match doc.get("@context"@) {
                            None => {},
                            Some(remote) => {
                                lemma_process_value_keeps(
                                    active,
                                    remote,
                                    Env { base: Some(at), remote: env.remote.push(url), ..env },
                                    Options { propagate: true, ..opts },
                                    (rf - 1) as nat,
                                    t,
                                    p,
                                );
                            },
                        },
                    }
                }
            },
        },
        JsonView::Object(_) => {
            lemma_process_definition_keeps(active, c, env, opts, rf, t, p);
        },
        _ => {},
    }
}

/// Processing the contexts of an array leaves the protected terms as they are.
proof fn lemma_process_items_keeps(
    active: ActiveContextModel,
    items: Seq<JsonView>,
    k: int,
    env: Env,
    opts: Options,
    rf: nat,
    t: Seq<char>,
    p: TermDefinitionModel,
)
    requires
        !opts.override_protected,
        protected_as(active, t, p),
    ensures
        process_items(active, items, k, env, opts, rf) matches Ok(r) ==> protected_as(r, t, p),
    decreases rf, items, 0nat, items.len() - k,
{
    if 0 <= k < items.len() {
        lemma_process_context_keeps(active, items[k], env, opts, rf, t, p);
        match process_context(active, items[k], env, opts, rf) {
            Err(_) => {},
            Ok(a) => {
                lemma_process_items_keeps(a, items, k + 1, env, opts, rf, t, p);
            },
        }
    }
}

/// Without leave to override, the processing of a context leaves every
/// protected term as it is: a context that gives a protected term another
/// definition cannot be processed.
pub proof fn lemma_process_value_keeps(
    active: ActiveContextModel,
    local: JsonView,
    env: Env,
    opts: Options,
    rf: nat,
    t: Seq<char>,
    p: TermDefinitionModel,
)
    requires
        !opts.override_protected,
        protected_as(active, t, p),
    ensures
        process_value(active, local, env, opts, rf) matches Ok(r) ==> protected_as(r, t, p),
    decreases rf, local, entries_of(local).len() + 5, 0int,
{
    let propagate = propagates(local, opts);
    let start = if !propagate && active.previous is None {
        ActiveContextModel { previous: Some(Box::new(active)), ..active }
    } else {
        active
    };
    let o = Options { propagate, ..opts };
    match local {
        JsonView::Array(items) => {
            lemma_process_items_keeps(start, items, 0, env, o, rf, t, p);
        },
        _ => {
            lemma_process_context_keeps(start, local, env, o, rf, t, p);
        },
    }
}

/// A context after another cannot give another definition to a term that
/// the first has protected: where the first of two contexts leaves `t`
/// protected, the two one after the other either leave `t` as the first
/// left it, or cannot be processed.
pub proof fn lemma_second_context_keeps(
    active: ActiveContextModel,
    first: JsonView,
    second: JsonView,
    env: Env,
    opts: Options,
    rf: nat,
    t: Seq<char>,
    p: TermDefinitionModel,
)
    requires
        !opts.override_protected,
        process_value(active, JsonView::Array(seq![first]), env, opts, rf) is Ok,
        protected_as(process_value(active, JsonView::Array(seq![first]), env, opts, rf)->Ok_0, t, p),
    ensures
        process_value(active, JsonView::Array(seq![first, second]), env, opts, rf) matches Ok(r) ==> protected_as(
            r,
            t,
            p,
        ),
{
    let one = seq![first];
    let two = seq![first, second];
    assert(propagates(JsonView::Array(one), opts) == opts.propagate);
    assert(propagates(JsonView::Array(two), opts) == opts.propagate);
    let start = if !opts.propagate && active.previous is None {
        ActiveContextModel { previous: Some(Box::new(active)), ..active }
    } else {
        active
    };
    let o = Options { propagate: opts.propagate, ..opts };
    assert(one[0] == first && two[0] == first && two[1] == second);
    match process_context(start, first, env, o, rf) {
        Ok(a) => {
            assert(process_items(a, one, 1, env, o, rf) == Ok::<_, ErrorCode>(a));
            assert(process_items(start, one, 0, env, o, rf) == Ok::<_, ErrorCode>(a));
            lemma_process_items_keeps(a, two, 1, env, o, rf, t, p);
            assert(process_items(start, two, 0, env, o, rf) == process_items(a, two, 1, env, o, rf));
        },
        Err(e) => {
            assert(process_items(start, one, 0, env, o, rf) == Err::<ActiveContextModel, ErrorCode>(e));
        },
    }
}

} // verus!
