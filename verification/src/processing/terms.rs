//! The definition of terms.

use vstd::prelude::*;
use vstd::string::*;

use crate::assoc::{assoc_get, assoc_lookup, assoc_model, assoc_put, assoc_take};
use crate::context::{
    clone_text, decided_by_term, has_kind, ActiveContext, ActiveContextModel, TermDefinition,
    TermDefinitionModel,
};
use crate::error::{Error, ErrorCode};
use crate::iri::{BlankIdBuf, IriBuf};
use crate::json::{clone_entries, clone_json, entries_view, items_view, json_eq, lemma_entries_view, Json, JsonView};
use crate::loader::{Loader, well_caused};
use crate::object::value::{same_text, text_of, Direction};
use crate::processing::contexts::process_value_exec;
use crate::processing::model::{
    container_allowed, container_kind, container_kinds, container_of, define_if_local, define_iri,
    define_mapped, define_reverse, define_rest, define_term, define_terms, define_type, define_written,
    definition_keys_allowed, definition_object, entries_of, expand_iri_defining, finish_term, guard_of,
    restored,
    has_colon_or_slash, is_context_keyword, looks_like_iri, names_node, same_definition,
    type_definition_allowed, Env, Options, State,
};
use crate::syntax::context::{optional_nullable_text, ContainerKind, Nullable};
use crate::text::{
    begins_with, check_ends_with_gen_delim, check_keyword, check_keyword_form, concat, find_char,
    find_char_from, position_from, starts_with, text_eq,
};

verus! {

/// The kind of container that a keyword names.
pub fn parse_container_kind(s: &str) -> (r: Option<ContainerKind>)
    ensures
        r == container_kind(s@),
{
    if text_eq(s, "@graph") {
        Some(ContainerKind::Graph)
    } else if text_eq(s, "@id") {
        Some(ContainerKind::Id)
    } else if text_eq(s, "@index") {
        Some(ContainerKind::Index)
    } else if text_eq(s, "@language") {
        Some(ContainerKind::Language)
    } else if text_eq(s, "@list") {
        Some(ContainerKind::List)
    } else if text_eq(s, "@set") {
        Some(ContainerKind::Unordered)
    } else if text_eq(s, "@type") {
        Some(ContainerKind::Type)
    } else {
        None
    }
}

/// Whether no kind stands twice among `ks`.
fn kinds_distinct(ks: &Vec<ContainerKind>) -> (r: bool)
    ensures
        r == ks@.no_duplicates(),
{
    let mut i: usize = 0;
    while i < ks.len()
        invariant
            i <= ks.len(),
            forall|a: int, b: int| 0 <= a < i && 0 <= b < ks.len() && a != b ==> ks@[a] != ks@[b],
        decreases ks.len() - i,
    {
        let mut j: usize = 0;
        while j < ks.len()
            invariant
                i < ks.len(),
                j <= ks.len(),
                forall|b: int| 0 <= b < j && b != i ==> ks@[i as int] != ks@[b],
            decreases ks.len() - j,
        {
            if j != i && ks[i] == ks[j] {
                return false;
            }
            j = j + 1;
        }
        i = i + 1;
    }
    true
}

/// Whether kinds of container go together.
pub fn check_container_allowed(ks: &Vec<ContainerKind>) -> (r: bool)
    ensures
        r == container_allowed(ks@),
{
    let graph = has_kind(ks, ContainerKind::Graph);
    let id = has_kind(ks, ContainerKind::Id);
    let index = has_kind(ks, ContainerKind::Index);
    let language = has_kind(ks, ContainerKind::Language);
    let list = has_kind(ks, ContainerKind::List);
    let ty = has_kind(ks, ContainerKind::Type);
    let mut selectors: u8 = 0;
    if id {
        selectors = selectors + 1;
    }
    if index {
        selectors = selectors + 1;
    }
    if language {
        selectors = selectors + 1;
    }
    if ty {
        selectors = selectors + 1;
    }
    ks.len() >= 1 && kinds_distinct(ks) && selectors <= 1 && (!list || ks.len() == 1) && (!graph || (
    !language && !ty))
}

/// The kinds of container that an `@container` entry names.
pub fn parse_container(value: &Json) -> (r: Result<Vec<ContainerKind>, ErrorCode>)
    ensures
        match r {
            Ok(ks) => container_of(value@) == Ok::<Seq<ContainerKind>, ErrorCode>(ks@),
            Err(e) => container_of(value@) == Err::<Seq<ContainerKind>, ErrorCode>(e),
        },
{
    let mut ks: Vec<ContainerKind> = Vec::new();
    match value {
        Json::Text(s) => match parse_container_kind(s.as_str()) {
            Some(k) => {
                ks.push(k);
                assert(ks@ =~= seq![k]);
            },
            None => {
                return Err(ErrorCode::InvalidContainerMapping);
            },
        },
        Json::Array(items) => {
            let ghost views = items_view(items@);
            let mut i: usize = 0;
            while i < items.len()
                invariant
                    i <= items.len(),
                    views == items_view(items@),
                    value@ == JsonView::Array(views),
                    container_kinds(views, i as int) == Some(ks@),
                decreases items.len() - i,
            {
                assert(views[i as int] == items@[i as int]@);
                let kind = match &items[i] {
                    Json::Text(s) => parse_container_kind(s.as_str()),
                    _ => None,
                };
                match kind {
                    Some(k) => {
                        ks.push(k);
                    },
                    None => {
                        proof {
                            assert(container_kinds(views, i + 1) is None);
                            lemma_container_kinds_fail(views, i + 1, items.len() as int);
                        }
                        return Err(ErrorCode::InvalidContainerMapping);
                    },
                }
                i = i + 1;
            }
        },
        _ => {
            return Err(ErrorCode::InvalidContainerMapping);
        },
    }
    if check_container_allowed(&ks) {
        Ok(ks)
    } else {
        Err(ErrorCode::InvalidContainerMapping)
    }
}

/// Where the first items name no kinds of container, more items do not either.
proof fn lemma_container_kinds_fail(items: Seq<JsonView>, i: int, k: int)
    requires
        0 <= i <= k <= items.len(),
        container_kinds(items, i) is None,
    ensures
        container_kinds(items, k) is None,
    decreases k - i,
{
    if i < k {
        lemma_container_kinds_fail(items, i, k - 1);
    }
}

/// Whether each key of `entries` may stand in the definition of a term.
pub fn check_definition_keys(entries: &Vec<(String, Json)>) -> (r: bool)
    ensures
        r == definition_keys_allowed(entries_view(entries@), entries.len() as int),
{
    let ghost views = entries_view(entries@);
    let mut i: usize = 0;
    while i < entries.len()
        invariant
            i <= entries.len(),
            views == entries_view(entries@),
            definition_keys_allowed(views, i as int),
        decreases entries.len() - i,
    {
        let key = entries[i].0.as_str();
        assert(views[i as int].0 == key@);
        let ok = text_eq(key, "@id") || text_eq(key, "@reverse") || text_eq(key, "@container") || text_eq(
            key,
            "@context",
        ) || text_eq(key, "@direction") || text_eq(key, "@index") || text_eq(key, "@language") || text_eq(
            key,
            "@nest",
        ) || text_eq(key, "@prefix") || text_eq(key, "@propagate") || text_eq(key, "@protected") || text_eq(
            key,
            "@type",
        );
        if !ok {
            proof {
                lemma_definition_keys_fail(views, i + 1, entries.len() as int);
            }
            return false;
        }
        i = i + 1;
    }
    true
}

/// Where a key among the first may not stand in the definition of a term, the keys do not pass.
proof fn lemma_definition_keys_fail(entries: Seq<(Seq<char>, JsonView)>, i: int, k: int)
    requires
        0 <= i <= k <= entries.len(),
        !definition_keys_allowed(entries, i),
    ensures
        !definition_keys_allowed(entries, k),
    decreases k - i,
{
    if i < k {
        lemma_definition_keys_fail(entries, i, k - 1);
    }
}

/// Whether `iri` is an IRI or a blank node label.
pub fn check_names_node(iri: &str) -> (r: bool)
    ensures
        r == names_node(iri@),
{
    IriBuf::from_str(iri).is_some() || BlankIdBuf::from_str(iri).is_some()
}

/// Whether a colon stands in `term` between its first and its last character, or a slash anywhere.
pub fn check_looks_like_iri(term: &str) -> (r: bool)
    ensures
        r == looks_like_iri(term@),
{
    let n = term.unicode_len();
    let colon = match find_char_from(term, ':', 1) {
        Some(i) => i + 1 < n,
        None => false,
    };
    colon || find_char(term, '/').is_some()
}

/// Whether a colon or a slash stands in `term`.
pub fn check_colon_or_slash(term: &str) -> (r: bool)
    ensures
        r == has_colon_or_slash(term@),
{
    find_char(term, ':').is_some() || find_char(term, '/').is_some()
}

/// The plain data of the terms that are defined, or being defined.
pub open spec fn state_of(active: ActiveContext, defined: Vec<(String, bool)>) -> State {
    State { active: active@, defined: assoc_model(defined@) }
}

/// The texts of strings.
pub open spec fn texts(ss: Seq<String>) -> Seq<Seq<char>> {
    Seq::new(ss.len(), |i: int| ss[i]@)
}

/// Whether `env` says what surrounds the processing: the IRI of the document,
/// what the loader finds, and the remote contexts on the way.
pub open spec fn env_matches<L: Loader>(env: Env, base: Option<IriBuf>, loader: L, remote: Seq<String>) -> bool {
    &&& env.base == match base {
        Some(b) => Some(b@),
        None => None,
    }
    &&& forall|u: Seq<char>| #[trigger] (env.found)(u) == loader.found(u)
    &&& env.remote == texts(remote)
}

/// Records the definition of a term, unless the term was protected and is defined otherwise.
pub(crate) fn finish_term_exec(
    active: &mut ActiveContext,
    defined: &mut Vec<(String, bool)>,
    term: &str,
    def: TermDefinition,
    previous: Option<TermDefinition>,
    opts: Options,
) -> (r: Result<(), ErrorCode>)
    ensures
        match r {
            Ok(()) => finish_term(
                state_of(*old(active), *old(defined)),
                term@,
                def@,
                match previous {
                    Some(p) => Some(p@),
                    None => None,
                },
                opts,
            ) == Ok::<State, ErrorCode>(state_of(*final(active), *final(defined))),
            Err(e) => finish_term(
                state_of(*old(active), *old(defined)),
                term@,
                def@,
                match previous {
                    Some(p) => Some(p@),
                    None => None,
                },
                opts,
            ) == Err::<State, ErrorCode>(e),
        },
{
    let kept = match previous {
        Some(p) => {
            if !opts.override_protected && p.protected {
                if same_definition_exec(&def, &p) {
                    p
                } else {
                    return Err(ErrorCode::ProtectedTermRedefinition);
                }
            } else {
                def
            }
        },
        None => def,
    };
    assoc_put(&mut active.terms, term.to_owned(), kept);
    assoc_put(defined, term.to_owned(), true);
    Ok(())
}

/// Whether two optional strings that may be given as `null` say the same.
fn same_nullable_text(a: &Option<Nullable<String>>, b: &Option<Nullable<String>>) -> (r: bool)
    ensures
        r == (optional_nullable_text(*a) == optional_nullable_text(*b)),
{
    match (a, b) {
        (Some(Nullable::Given(x)), Some(Nullable::Given(y))) => *x == *y,
        (Some(Nullable::Null), Some(Nullable::Null)) => true,
        (None, None) => true,
        _ => false,
    }
}

/// Whether two optional directions that may be given as `null` say the same.
fn same_nullable_direction(a: &Option<Nullable<Direction>>, b: &Option<Nullable<Direction>>) -> (r: bool)
    ensures
        r == (*a == *b),
{
    match (a, b) {
        (Some(Nullable::Given(x)), Some(Nullable::Given(y))) => *x == *y,
        (Some(Nullable::Null), Some(Nullable::Null)) => true,
        (None, None) => true,
        _ => false,
    }
}

/// Whether two lists of kinds of container are the same.
fn same_kinds(a: &Vec<ContainerKind>, b: &Vec<ContainerKind>) -> (r: bool)
    ensures
        r == (a@ == b@),
{
    if a.len() != b.len() {
        return false;
    }
    let mut i: usize = 0;
    while i < a.len()
        invariant
            i <= a.len(),
            a.len() == b.len(),
            forall|j: int| 0 <= j < i ==> a@[j] == b@[j],
        decreases a.len() - i,
    {
        if a[i] != b[i] {
            return false;
        }
        i = i + 1;
    }
    assert(a@ =~= b@);
    true
}

/// Whether two definitions say the same, whether protected or not.
pub fn same_definition_exec(a: &TermDefinition, b: &TermDefinition) -> (r: bool)
    ensures
        r == same_definition(a@, b@),
{
    let same_context = match (&a.context, &b.context) {
        (Some(x), Some(y)) => json_eq(x, y),
        (None, None) => true,
        _ => false,
    };
    same_text(&a.iri, &b.iri) && a.prefix == b.prefix && a.reverse == b.reverse
        && same_text(&a.typ, &b.typ) && same_nullable_text(&a.language, &b.language)
        && same_nullable_direction(&a.direction, &b.direction) && same_kinds(&a.container, &b.container)
        && same_context && same_text(&a.nest, &b.nest)
        && same_text(&a.index, &b.index)
}

/// Defines `term` where the context being processed has it and it is not defined yet.
pub(crate) fn define_if_local_exec<L: Loader>(
    active: &mut ActiveContext,
    defined: &mut Vec<(String, bool)>,
    d: &Json,
    term: &str,
    protected: bool,
    base: &Option<IriBuf>,
    loader: &mut L,
    remote: &Vec<String>,
    opts: Options,
    rf: usize,
    tf: usize,
    Ghost(env): Ghost<Env>,
) -> (r: Result<(), Error<L::Error>>)
    requires
        env_matches(env, *base, *old(loader), remote@),
    ensures
        well_caused::<_, L>(r, env.found),
        env_matches(env, *base, *final(loader), remote@),
        match r {
            Ok(()) => define_if_local(
                state_of(*old(active), *old(defined)),
                d@,
                term@,
                protected,
                env,
                opts,
                rf as nat,
                tf as nat,
            ) == Ok::<State, ErrorCode>(state_of(*final(active), *final(defined))),
            Err(e) => define_if_local(
                state_of(*old(active), *old(defined)),
                d@,
                term@,
                protected,
                env,
                opts,
                rf as nat,
                tf as nat,
            ) == Err::<State, ErrorCode>(e.code),
        },
    decreases rf, d, tf, 0int,
{
    let local = d.get(term).is_some();
    let done = match assoc_lookup(defined, term) {
        Some(b) => *b,
        None => false,
    };
    if local && !done {
        if tf == 0 {
            return Err(Error::new(ErrorCode::CyclicIriMapping));
        }
        define_term_exec(active, defined, d, term, protected, base, loader, remote, opts, rf, tf - 1, Ghost(env))
    } else {
        Ok(())
    }
}

/// The prefix of a compact IRI: what stands before the first colon after
/// the first character, unless that is `_` or `//` follows the colon.
pub open spec fn prefix_of_value(value: Seq<char>) -> Option<Seq<char>> {
    match position_from(value, ':', 1) {
        Some(i) => if value.subrange(0, i) == "_"@ || begins_with(
            value.subrange(i + 1, value.len() as int),
            "//"@,
        ) {
            None
        } else {
            Some(value.subrange(0, i))
        },
        None => None,
    }
}

/// The prefix of a compact IRI.
fn find_prefix(value: &str) -> (r: Option<&str>)
    ensures
        match r {
            Some(p) => prefix_of_value(value@) == Some(p@),
            None => prefix_of_value(value@) is None,
        },
{
    match find_char_from(value, ':', 1) {
        Some(i) => {
            let n = value.unicode_len();
            let prefix = value.substring_char(0, i);
            let suffix = value.substring_char(i + 1, n);
            if text_eq(prefix, "_") || starts_with(suffix, "//") {
                None
            } else {
                Some(prefix)
            }
        },
        None => None,
    }
}

/// Whether the terms of `active` decide what `value` stands for.
fn check_decided_by_term(active: &ActiveContext, value: &str, vocab: bool) -> (r: bool)
    ensures
        r == decided_by_term(active@, value@, vocab),
{
    match active.get(value) {
        Some(d) => vocab || match &d.iri {
            Some(iri) => check_keyword(iri.as_str()),
            None => false,
        },
        None => false,
    }
}

/// What `value` stands for while the context `d` is being processed.
fn expand_iri_defining_exec<L: Loader>(
    active: &mut ActiveContext,
    defined: &mut Vec<(String, bool)>,
    d: &Json,
    value: &str,
    document_relative: bool,
    vocab: bool,
    protected: bool,
    base: &Option<IriBuf>,
    loader: &mut L,
    remote: &Vec<String>,
    opts: Options,
    rf: usize,
    tf: usize,
    Ghost(env): Ghost<Env>,
) -> (r: Result<Option<String>, Error<L::Error>>)
    requires
        env_matches(env, *base, *old(loader), remote@),
    ensures
        well_caused::<_, L>(r, env.found),
        env_matches(env, *base, *final(loader), remote@),
        match r {
            Ok(iri) => expand_iri_defining(
                state_of(*old(active), *old(defined)),
                d@,
                value@,
                document_relative,
                vocab,
                protected,
                env,
                opts,
                rf as nat,
                tf as nat,
            ) == Ok::<(State, Option<Seq<char>>), ErrorCode>(
                (state_of(*final(active), *final(defined)), text_of(iri)),
            ),
            Err(e) => expand_iri_defining(
                state_of(*old(active), *old(defined)),
                d@,
                value@,
                document_relative,
                vocab,
                protected,
                env,
                opts,
                rf as nat,
                tf as nat,
            ) == Err::<(State, Option<Seq<char>>), ErrorCode>(e.code),
        },
    decreases rf, d, tf, 1int,
{
    if check_keyword(value) {
        return Ok(Some(value.to_owned()));
    }
    if check_keyword_form(value) {
        return Ok(None);
    }
    match define_if_local_exec(active, defined, d, value, protected, base, loader, remote, opts, rf, tf, Ghost(env)) {
        Err(e) => {
            return Err(e);
        },
        Ok(()) => {},
    }
    let prefix = find_prefix(value);
    if check_decided_by_term(active, value, vocab) || prefix.is_none() {
        return Ok(active.expand_iri(value, document_relative, vocab));
    }
    match prefix {
        Some(p) => match define_if_local_exec(
            active,
            defined,
            d,
            p,
            protected,
            base,
            loader,
            remote,
            opts,
            rf,
            tf,
            Ghost(env),
        ) {
            Err(e) => Err(e),
            Ok(()) => Ok(active.expand_iri(value, document_relative, vocab)),
        },
        None => Ok(None),
    }
}

/// The type mapping of a term being defined.
pub(crate) fn define_type_exec<L: Loader>(
    active: &mut ActiveContext,
    defined: &mut Vec<(String, bool)>,
    d: &Json,
    value: &Vec<(String, Json)>,
    protected: bool,
    base: &Option<IriBuf>,
    loader: &mut L,
    remote: &Vec<String>,
    opts: Options,
    rf: usize,
    tf: usize,
    Ghost(env): Ghost<Env>,
) -> (r: Result<Option<String>, Error<L::Error>>)
    requires
        env_matches(env, *base, *old(loader), remote@),
    ensures
        well_caused::<_, L>(r, env.found),
        env_matches(env, *base, *final(loader), remote@),
        match r {
            Ok(typ) => define_type(
                state_of(*old(active), *old(defined)),
                d@,
                entries_view(value@),
                protected,
                env,
                opts,
                rf as nat,
                tf as nat,
            ) == Ok::<(State, Option<Seq<char>>), ErrorCode>(
                (state_of(*final(active), *final(defined)), text_of(typ)),
            ),
            Err(e) => define_type(
                state_of(*old(active), *old(defined)),
                d@,
                entries_view(value@),
                protected,
                env,
                opts,
                rf as nat,
                tf as nat,
            ) == Err::<(State, Option<Seq<char>>), ErrorCode>(e.code),
        },
    decreases rf, d, tf, 2int,
{
    proof {
        lemma_entries_view(value@);
    }
    match assoc_lookup(value, "@type") {
        None => Ok(None),
        Some(Json::Text(t)) => match expand_iri_defining_exec(
            active,
            defined,
            d,
            t.as_str(),
            false,
            true,
            protected,
            base,
            loader,
            remote,
            opts,
            rf,
            tf,
            Ghost(env),
        ) {
            Err(e) => Err(e),
            Ok(Some(iri)) => {
                let s = iri.as_str();
                if text_eq(s, "@id") || text_eq(s, "@vocab") || text_eq(s, "@json") || text_eq(s, "@none")
                    || IriBuf::from_str(s).is_some() {
                    Ok(Some(iri))
                } else {
                    Err(Error::new(ErrorCode::InvalidTypeMapping))
                }
            },
            Ok(None) => Err(Error::new(ErrorCode::InvalidTypeMapping)),
        },
        Some(_) => Err(Error::new(ErrorCode::InvalidTypeMapping)),
    }
}

/// The plain data of what a term being defined stands for, and whether it can be a prefix.
pub open spec fn mapping_model(m: Option<(Option<String>, bool)>) -> Option<(Option<Seq<char>>, bool)> {
    match m {
        Some((iri, prefix)) => Some((text_of(iri), prefix)),
        None => None,
    }
}

/// The IRI that a term being defined stands for, and whether it can be a prefix.
pub(crate) fn define_iri_exec<L: Loader>(
    active: &mut ActiveContext,
    defined: &mut Vec<(String, bool)>,
    d: &Json,
    term: &str,
    value: &Vec<(String, Json)>,
    simple: bool,
    protected: bool,
    base: &Option<IriBuf>,
    loader: &mut L,
    remote: &Vec<String>,
    opts: Options,
    rf: usize,
    tf: usize,
    Ghost(env): Ghost<Env>,
) -> (r: Result<Option<(Option<String>, bool)>, Error<L::Error>>)
    requires
        env_matches(env, *base, *old(loader), remote@),
    ensures
        well_caused::<_, L>(r, env.found),
        env_matches(env, *base, *final(loader), remote@),
        match r {
            Ok(m) => define_iri(
                state_of(*old(active), *old(defined)),
                d@,
                term@,
                entries_view(value@),
                simple,
                protected,
                env,
                opts,
                rf as nat,
                tf as nat,
            ) == Ok::<(State, Option<(Option<Seq<char>>, bool)>), ErrorCode>(
                (state_of(*final(active), *final(defined)), mapping_model(m)),
            ),
            Err(e) => define_iri(
                state_of(*old(active), *old(defined)),
                d@,
                term@,
                entries_view(value@),
                simple,
                protected,
                env,
                opts,
                rf as nat,
                tf as nat,
            ) == Err::<(State, Option<(Option<Seq<char>>, bool)>), ErrorCode>(e.code),
        },
    decreases rf, d, tf, 2int,
{
    proof {
        lemma_entries_view(value@);
    }
    let id = assoc_lookup(value, "@id");
    let given = match id {
        Some(Json::Text(s)) => !text_eq(s.as_str(), term),
        Some(_) => true,
        None => false,
    };
    if given {
        match id {
            Some(Json::Null) => Ok(Some((None, false))),
            Some(Json::Text(s)) => {
                let s = s.as_str();
                if !check_keyword(s) && check_keyword_form(s) {
                    return Ok(None);
                }
                match expand_iri_defining_exec(
                    active,
                    defined,
                    d,
                    s,
                    false,
                    true,
                    protected,
                    base,
                    loader,
                    remote,
                    opts,
                    rf,
                    tf,
                    Ghost(env),
                ) {
                    Err(e) => Err(e),
                    Ok(None) => Err(Error::new(ErrorCode::InvalidIriMapping)),
                    Ok(Some(iri)) => {
                        if !(check_keyword(iri.as_str()) || check_names_node(iri.as_str())) {
                            return Err(Error::new(ErrorCode::InvalidIriMapping));
                        }
                        if text_eq(iri.as_str(), "@context") {
                            return Err(Error::new(ErrorCode::InvalidKeywordAlias));
                        }
                        if check_looks_like_iri(term) {
                            assoc_put(defined, term.to_owned(), true);
                            match expand_iri_defining_exec(
                                active,
                                defined,
                                d,
                                term,
                                false,
                                true,
                                protected,
                                base,
                                loader,
                                remote,
                                opts,
                                rf,
                                tf,
                                Ghost(env),
                            ) {
                                Err(e) => Err(e),
                                Ok(expanded) => {
                                    let same = match &expanded {
                                        Some(x) => text_eq(x.as_str(), iri.as_str()),
                                        None => false,
                                    };
                                    if same {
                                        Ok(Some((Some(iri), false)))
                                    } else {
                                        Err(Error::new(ErrorCode::InvalidIriMapping))
                                    }
                                },
                            }
                        } else {
                            let prefix = !check_colon_or_slash(term) && simple && (check_ends_with_gen_delim(
                                iri.as_str(),
                            ) || BlankIdBuf::from_str(iri.as_str()).is_some());
                            Ok(Some((Some(iri), prefix)))
                        }
                    },
                }
            },
            _ => Err(Error::new(ErrorCode::InvalidIriMapping)),
        }
    } else {
        match find_char_from(term, ':', 1) {
            Some(i) => {
                let n = term.unicode_len();
                let prefix = term.substring_char(0, i);
                let suffix = term.substring_char(i + 1, n);
                match define_if_local_exec(
                    active,
                    defined,
                    d,
                    prefix,
                    protected,
                    base,
                    loader,
                    remote,
                    opts,
                    rf,
                    tf,
                    Ghost(env),
                ) {
                    Err(e) => Err(e),
                    Ok(()) => {
                        let mapped = match active.get(prefix) {
                            Some(p) => match &p.iri {
                                Some(iri) => Some(concat(iri.as_str(), suffix)),
                                None => None,
                            },
                            None => None,
                        };
                        match mapped {
                            Some(iri) => Ok(Some((Some(iri), false))),
                            None => Ok(Some((Some(term.to_owned()), false))),
                        }
                    },
                }
            },
            None => {
                if find_char(term, '/').is_some() {
                    match expand_iri_defining_exec(
                        active,
                        defined,
                        d,
                        term,
                        false,
                        true,
                        protected,
                        base,
                        loader,
                        remote,
                        opts,
                        rf,
                        tf,
                        Ghost(env),
                    ) {
                        Err(e) => Err(e),
                        Ok(Some(iri)) => if IriBuf::from_str(iri.as_str()).is_some() {
                            Ok(Some((Some(iri), false)))
                        } else {
                            Err(Error::new(ErrorCode::InvalidIriMapping))
                        },
                        Ok(None) => Err(Error::new(ErrorCode::InvalidIriMapping)),
                    }
                } else if text_eq(term, "@type") {
                    Ok(Some((Some("@type".to_owned()), false)))
                } else {
                    match &active.vocab {
                        Some(v) => Ok(Some((Some(concat(v.as_str(), term)), false))),
                        None => Err(Error::new(ErrorCode::InvalidIriMapping)),
                    }
                }
            },
        }
    }
}

/// Gives back to a term whose definition is passed over what it stood for before.
fn restore_term(
    active: &mut ActiveContext,
    defined: &mut Vec<(String, bool)>,
    term: &str,
    previous: Option<TermDefinition>,
)
    ensures
        state_of(*final(active), *final(defined)) == restored(
            state_of(*old(active), *old(defined)),
            term@,
            optional_definition(previous),
        ),
{
    match previous {
        Some(p) => {
            assoc_put(&mut active.terms, term.to_owned(), p);
        },
        None => {},
    }
}

/// The definition of a reverse property.
pub(crate) fn define_reverse_exec<L: Loader>(
    active: &mut ActiveContext,
    defined: &mut Vec<(String, bool)>,
    d: &Json,
    term: &str,
    value: &Vec<(String, Json)>,
    def: TermDefinition,
    previous: Option<TermDefinition>,
    protected: bool,
    base: &Option<IriBuf>,
    loader: &mut L,
    remote: &Vec<String>,
    opts: Options,
    rf: usize,
    tf: usize,
    Ghost(env): Ghost<Env>,
) -> (r: Result<(), Error<L::Error>>)
    requires
        env_matches(env, *base, *old(loader), remote@),
    ensures
        well_caused::<_, L>(r, env.found),
        env_matches(env, *base, *final(loader), remote@),
        match r {
            Ok(()) => define_reverse(
                state_of(*old(active), *old(defined)),
                d@,
                term@,
                entries_view(value@),
                def@,
                optional_definition(previous),
                protected,
                env,
                opts,
                rf as nat,
                tf as nat,
            ) == Ok::<State, ErrorCode>(state_of(*final(active), *final(defined))),
            Err(e) => define_reverse(
                state_of(*old(active), *old(defined)),
                d@,
                term@,
                entries_view(value@),
                def@,
                optional_definition(previous),
                protected,
                env,
                opts,
                rf as nat,
                tf as nat,
            ) == Err::<State, ErrorCode>(e.code),
        },
    decreases rf, d, tf, 2int,
{
    proof {
        lemma_entries_view(value@);
    }
    if assoc_lookup(value, "@id").is_some() || assoc_lookup(value, "@nest").is_some() {
        return Err(Error::new(ErrorCode::InvalidReverseProperty));
    }
    match assoc_lookup(value, "@reverse") {
        Some(Json::Text(r)) => {
            let r = r.as_str();
            if check_keyword_form(r) {
                restore_term(active, defined, term, previous);
                return Ok(());
            }
            match expand_iri_defining_exec(
                active,
                defined,
                d,
                r,
                false,
                true,
                protected,
                base,
                loader,
                remote,
                opts,
                rf,
                tf,
                Ghost(env),
            ) {
                Err(e) => Err(e),
                Ok(None) => Err(Error::new(ErrorCode::InvalidIriMapping)),
                Ok(Some(iri)) => {
                    if !check_names_node(iri.as_str()) {
                        return Err(Error::new(ErrorCode::InvalidIriMapping));
                    }
                    let mut container: Vec<ContainerKind> = Vec::new();
                    match assoc_lookup(value, "@container") {
                        None => {},
                        Some(Json::Null) => {},
                        Some(Json::Text(c)) => {
                            if text_eq(c.as_str(), "@set") {
                                container.push(ContainerKind::Unordered);
                                assert(container@ =~= seq![ContainerKind::Unordered]);
                            } else if text_eq(c.as_str(), "@index") {
                                container.push(ContainerKind::Index);
                                assert(container@ =~= seq![ContainerKind::Index]);
                            } else {
                                return Err(Error::new(ErrorCode::InvalidReverseProperty));
                            }
                        },
                        Some(_) => {
                            return Err(Error::new(ErrorCode::InvalidReverseProperty));
                        },
                    }
                    let mut def = def;
                    def.iri = Some(iri);
                    def.reverse = true;
                    def.container = container;
                    match finish_term_exec(active, defined, term, def, previous, opts) {
                        Ok(()) => Ok(()),
                        Err(code) => Err(Error::new(code)),
                    }
                },
            }
        },
        _ => Err(Error::new(ErrorCode::InvalidIriMapping)),
    }
}

/// What the entries of the definition of a term other than `@id`, `@type`
/// and `@reverse` add to the definition.
pub(crate) fn define_rest_exec<L: Loader>(
    active: &ActiveContext,
    d: &Json,
    term: &str,
    value: &Vec<(String, Json)>,
    def: TermDefinition,
    base: &Option<IriBuf>,
    loader: &mut L,
    remote: &Vec<String>,
    opts: Options,
    rf: usize,
    tf: usize,
    Ghost(env): Ghost<Env>,
) -> (r: Result<TermDefinition, Error<L::Error>>)
    requires
        env_matches(env, *base, *old(loader), remote@),
    ensures
        well_caused::<_, L>(r, env.found),
        env_matches(env, *base, *final(loader), remote@),
        match r {
            Ok(def2) => define_rest(
                active@,
                d@,
                term@,
                entries_view(value@),
                def@,
                env,
                opts,
                rf as nat,
                tf as nat,
            ) == Ok::<TermDefinitionModel, ErrorCode>(def2@),
            Err(e) => define_rest(
                active@,
                d@,
                term@,
                entries_view(value@),
                def@,
                env,
                opts,
                rf as nat,
                tf as nat,
            ) == Err::<TermDefinitionModel, ErrorCode>(e.code),
        },
    decreases rf, d, tf, 2int,
{
    proof {
        lemma_entries_view(value@);
    }
    let ks = match assoc_lookup(value, "@container") {
        None => Vec::new(),
        Some(c) => match parse_container(c) {
            Ok(ks) => ks,
            Err(code) => {
                return Err(Error::new(code));
            },
        },
    };
    let typed = def.typ.is_some();
    let with_type = has_kind(&ks, ContainerKind::Type);
    let typ = if with_type && !typed {
        Some("@id".to_owned())
    } else {
        clone_text(&def.typ)
    };
    if with_type {
        let fits = match &typ {
            Some(t) => text_eq(t.as_str(), "@id") || text_eq(t.as_str(), "@vocab"),
            None => false,
        };
        if !fits {
            return Err(Error::new(ErrorCode::InvalidTypeMapping));
        }
    }
    let index = match assoc_lookup(value, "@index") {
        None => None,
        Some(Json::Text(i)) => {
            if has_kind(&ks, ContainerKind::Index) && !check_keyword_form(i.as_str()) {
                Some(i.clone())
            } else {
                return Err(Error::new(ErrorCode::InvalidTermDefinition));
            }
        },
        Some(_) => {
            return Err(Error::new(ErrorCode::InvalidTermDefinition));
        },
    };
    let scoped = match assoc_lookup(value, "@context") {
        None => None,
        Some(c) => {
            if rf == 0 {
                return Err(Error::new(ErrorCode::ContextOverflow));
            }
            match process_value_exec(
                active,
                c,
                base,
                loader,
                remote,
                Options { override_protected: true, propagate: true, validate_scoped: false },
                rf - 1,
                Ghost(env),
            ) {
                Ok(_) => Some(clone_json(c)),
                Err(_) => {
                    return Err(Error::new(ErrorCode::InvalidScopedContext));
                },
            }
        },
    };
    let language = match assoc_lookup(value, "@language") {
        None => None,
        Some(Json::Null) => Some(Nullable::Null),
        Some(Json::Text(l)) => Some(Nullable::Given(l.clone())),
        Some(_) => {
            return Err(Error::new(ErrorCode::InvalidLanguageMapping));
        },
    };
    let direction = match assoc_lookup(value, "@direction") {
        None => None,
        Some(Json::Null) => Some(Nullable::Null),
        Some(Json::Text(t)) => {
            if text_eq(t.as_str(), "ltr") {
                Some(Nullable::Given(Direction::Ltr))
            } else if text_eq(t.as_str(), "rtl") {
                Some(Nullable::Given(Direction::Rtl))
            } else {
                return Err(Error::new(ErrorCode::InvalidBaseDirection));
            }
        },
        Some(_) => {
            return Err(Error::new(ErrorCode::InvalidBaseDirection));
        },
    };
    let nest = match assoc_lookup(value, "@nest") {
        None => None,
        Some(Json::Text(n)) => {
            if check_keyword(n.as_str()) && !text_eq(n.as_str(), "@nest") {
                return Err(Error::new(ErrorCode::InvalidNestValue));
            }
            Some(n.clone())
        },
        Some(_) => {
            return Err(Error::new(ErrorCode::InvalidNestValue));
        },
    };
    let prefix = match assoc_lookup(value, "@prefix") {
        None => def.prefix,
        Some(Json::Boolean(b)) => {
            if check_colon_or_slash(term) {
                return Err(Error::new(ErrorCode::InvalidTermDefinition));
            }
            let keyword = match &def.iri {
                Some(iri) => check_keyword(iri.as_str()),
                None => false,
            };
            if *b && keyword {
                return Err(Error::new(ErrorCode::InvalidTermDefinition));
            }
            *b
        },
        Some(_) => {
            if check_colon_or_slash(term) {
                return Err(Error::new(ErrorCode::InvalidTermDefinition));
            }
            return Err(Error::new(ErrorCode::InvalidPrefixValue));
        },
    };
    if !check_definition_keys(value) {
        return Err(Error::new(ErrorCode::InvalidTermDefinition));
    }
    let mut def = def;
    def.typ = typ;
    def.container = ks;
    def.index = index;
    def.context = scoped;
    def.language = if typed {
        None
    } else {
        language
    };
    def.direction = if typed {
        None
    } else {
        direction
    };
    def.nest = nest;
    def.prefix = prefix;
    Ok(def)
}

/// Whether the definition of the term `@type` is one that can be.
fn check_type_definition(value: &Json) -> (r: bool)
    ensures
        r == type_definition_allowed(value@),
{
    match value {
        Json::Object(entries) => {
            proof {
                lemma_entries_view(entries@);
            }
            let set = match assoc_lookup(entries, "@container") {
                Some(Json::Text(s)) => text_eq(s.as_str(), "@set"),
                _ => false,
            };
            if !set {
                return false;
            }
            let ghost views = entries_view(entries@);
            let mut i: usize = 0;
            while i < entries.len()
                invariant
                    i <= entries.len(),
                    views == entries_view(entries@),
                    value@ == JsonView::Object(views),
                    assoc_get(views, "@container"@) == Some(JsonView::Text("@set"@)),
                    forall|j: int|
                        0 <= j < i ==> (#[trigger] views[j]).0 == "@container"@ || views[j].0 == "@protected"@,
                decreases entries.len() - i,
            {
                let key = entries[i].0.as_str();
                assert(views[i as int].0 == key@);
                if !(text_eq(key, "@container") || text_eq(key, "@protected")) {
                    return false;
                }
                i = i + 1;
            }
            true
        },
        _ => false,
    }
}

/// The plain data of an optional definition.
pub open spec fn optional_definition(d: Option<TermDefinition>) -> Option<TermDefinitionModel> {
    match d {
        Some(d) => Some(d@),
        None => None,
    }
}

/// Gives the term being defined what it stands for and what the other
/// entries of its definition say, and records the definition.
pub(crate) fn define_mapped_exec<L: Loader>(
    active: &mut ActiveContext,
    defined: &mut Vec<(String, bool)>,
    d: &Json,
    term: &str,
    value: &Vec<(String, Json)>,
    def: TermDefinition,
    simple: bool,
    object: bool,
    previous: Option<TermDefinition>,
    protected: bool,
    base: &Option<IriBuf>,
    loader: &mut L,
    remote: &Vec<String>,
    opts: Options,
    rf: usize,
    tf: usize,
    Ghost(env): Ghost<Env>,
) -> (r: Result<(), Error<L::Error>>)
    requires
        env_matches(env, *base, *old(loader), remote@),
    ensures
        well_caused::<_, L>(r, env.found),
        env_matches(env, *base, *final(loader), remote@),
        match r {
            Ok(()) => define_mapped(
                state_of(*old(active), *old(defined)),
                d@,
                term@,
                entries_view(value@),
                def@,
                simple,
                object,
                optional_definition(previous),
                protected,
                env,
                opts,
                rf as nat,
                tf as nat,
            ) == Ok::<State, ErrorCode>(state_of(*final(active), *final(defined))),
            Err(e) => define_mapped(
                state_of(*old(active), *old(defined)),
                d@,
                term@,
                entries_view(value@),
                def@,
                simple,
                object,
                optional_definition(previous),
                protected,
                env,
                opts,
                rf as nat,
                tf as nat,
            ) == Err::<State, ErrorCode>(e.code),
        },
    decreases rf, d, tf, 3int,
{
    proof {
        lemma_entries_view(value@);
    }
    if assoc_lookup(value, "@reverse").is_some() {
        return define_reverse_exec(
            active,
            defined,
            d,
            term,
            value,
            def,
            previous,
            protected,
            base,
            loader,
            remote,
            opts,
            rf,
            tf,
            Ghost(env),
        );
    }
    match define_iri_exec(
        active,
        defined,
        d,
        term,
        value,
        simple,
        protected,
        base,
        loader,
        remote,
        opts,
        rf,
        tf,
        Ghost(env),
    ) {
        Err(e) => Err(e),
        Ok(None) => {
            restore_term(active, defined, term, previous);
            Ok(())
        },
        Ok(Some((iri, prefix))) => {
            let mut def = def;
            def.iri = iri;
            def.prefix = prefix;
            let def = if object {
                match define_rest_exec(active, d, term, value, def, base, loader, remote, opts, rf, tf, Ghost(env)) {
                    Err(e) => {
                        return Err(e);
                    },
                    Ok(def) => def,
                }
            } else {
                def
            };
            match finish_term_exec(active, defined, term, def, previous, opts) {
                Ok(()) => Ok(()),
                Err(code) => Err(Error::new(code)),
            }
        },
    }
}

/// The definition of a term as an object.
fn definition_entries(written: &Json) -> (r: Option<Vec<(String, Json)>>)
    ensures
        match r {
            Some(value) => definition_object(written@) == Some(entries_view(value@)),
            None => definition_object(written@) is None,
        },
{
    let mut value: Vec<(String, Json)> = Vec::new();
    match written {
        Json::Null => {
            value.push(("@id".to_owned(), Json::Null));
            assert(entries_view(value@) =~= seq![("@id"@, JsonView::Null)]);
            Some(value)
        },
        Json::Text(s) => {
            value.push(("@id".to_owned(), Json::Text(s.clone())));
            assert(entries_view(value@) =~= seq![("@id"@, JsonView::Text(s@))]);
            Some(value)
        },
        Json::Object(entries) => Some(clone_entries(entries)),
        _ => None,
    }
}

/// Drops what `term` stood for, and marks the term as being defined.
fn begin_term(active: &mut ActiveContext, defined: &mut Vec<(String, bool)>, term: &str) -> (r: Option<
    TermDefinition,
>)
    ensures
        optional_definition(r) == old(active)@.get(term@),
        state_of(*final(active), *final(defined)) == (State {
            active: ActiveContextModel {
                terms: crate::assoc::assoc_without(old(active)@.terms, term@),
                ..old(active)@
            },
            defined: crate::assoc::assoc_with(assoc_model(old(defined)@), term@, false),
        }),
{
    let previous = assoc_take(&mut active.terms, term);
    assoc_put(defined, term.to_owned(), false);
    previous
}

/// Whether the definition of a term is protected.
fn read_guard(value: &Vec<(String, Json)>, protected: bool) -> (r: Result<bool, ErrorCode>)
    ensures
        r == guard_of(entries_view(value@), protected),
{
    proof {
        lemma_entries_view(value@);
    }
    match assoc_lookup(value, "@protected") {
        None => Ok(protected),
        Some(Json::Boolean(b)) => Ok(*b),
        Some(_) => Err(ErrorCode::InvalidProtectedValue),
    }
}

/// The definition that has a type and says nothing else.
fn typed_definition(typ: Option<String>, protected: bool) -> (r: TermDefinition)
    ensures
        r@ == (TermDefinitionModel { typ: text_of(typ), ..TermDefinitionModel::plain(None, protected) }),
{
    let mut def = TermDefinition::plain(None, protected);
    def.typ = typ;
    def
}

/// Defines `term` as `written`.
pub(crate) fn define_written_exec<L: Loader>(
    active: &mut ActiveContext,
    defined: &mut Vec<(String, bool)>,
    d: &Json,
    term: &str,
    written: &Json,
    protected: bool,
    base: &Option<IriBuf>,
    loader: &mut L,
    remote: &Vec<String>,
    opts: Options,
    rf: usize,
    tf: usize,
    Ghost(env): Ghost<Env>,
) -> (r: Result<(), Error<L::Error>>)
    requires
        env_matches(env, *base, *old(loader), remote@),
    ensures
        well_caused::<_, L>(r, env.found),
        env_matches(env, *base, *final(loader), remote@),
        match r {
            Ok(()) => define_written(
                state_of(*old(active), *old(defined)),
                d@,
                term@,
                written@,
                protected,
                env,
                opts,
                rf as nat,
                tf as nat,
            ) == Ok::<State, ErrorCode>(state_of(*final(active), *final(defined))),
            Err(e) => define_written(
                state_of(*old(active), *old(defined)),
                d@,
                term@,
                written@,
                protected,
                env,
                opts,
                rf as nat,
                tf as nat,
            ) == Err::<State, ErrorCode>(e.code),
        },
    decreases rf, d, tf, 4int,
{
    let value = match definition_entries(written) {
        Some(v) => v,
        None => {
            return Err(Error::new(ErrorCode::InvalidTermDefinition));
        },
    };
    proof {
        lemma_entries_view(value@);
    }
    let simple = match written {
        Json::Text(_) => true,
        _ => false,
    };
    let object = match written {
        Json::Object(_) => true,
        _ => false,
    };
    let previous = begin_term(active, defined, term);
    let guarded = match read_guard(&value, protected) {
        Ok(g) => g,
        Err(code) => {
            return Err(Error::new(code));
        },
    };
    let typ = match define_type_exec(
        active,
        defined,
        d,
        &value,
        protected,
        base,
        loader,
        remote,
        opts,
        rf,
        tf,
        Ghost(env),
    ) {
        Err(e) => {
            return Err(e);
        },
        Ok(typ) => typ,
    };
    let def = typed_definition(typ, guarded);
    define_mapped_exec(
        active,
        defined,
        d,
        term,
        &value,
        def,
        simple,
        object,
        previous,
        protected,
        base,
        loader,
        remote,
        opts,
        rf,
        tf,
        Ghost(env),
    )
}

/// Defines `term` as the context `d` has it.
pub(crate) fn define_term_exec<L: Loader>(
    active: &mut ActiveContext,
    defined: &mut Vec<(String, bool)>,
    d: &Json,
    term: &str,
    protected: bool,
    base: &Option<IriBuf>,
    loader: &mut L,
    remote: &Vec<String>,
    opts: Options,
    rf: usize,
    tf: usize,
    Ghost(env): Ghost<Env>,
) -> (r: Result<(), Error<L::Error>>)
    requires
        env_matches(env, *base, *old(loader), remote@),
    ensures
        well_caused::<_, L>(r, env.found),
        env_matches(env, *base, *final(loader), remote@),
        match r {
            Ok(()) => define_term(
                state_of(*old(active), *old(defined)),
                d@,
                term@,
                protected,
                env,
                opts,
                rf as nat,
                tf as nat,
            ) == Ok::<State, ErrorCode>(state_of(*final(active), *final(defined))),
            Err(e) => define_term(
                state_of(*old(active), *old(defined)),
                d@,
                term@,
                protected,
                env,
                opts,
                rf as nat,
                tf as nat,
            ) == Err::<State, ErrorCode>(e.code),
        },
    decreases rf, d, tf, 5int,
{
    match assoc_lookup(defined, term) {
        Some(b) => {
            if *b {
                return Ok(());
            } else {
                return Err(Error::new(ErrorCode::CyclicIriMapping));
            }
        },
        None => {},
    }
    if term.unicode_len() == 0 {
        return Err(Error::new(ErrorCode::InvalidTermDefinition));
    }
    let written = match d.get(term) {
        Some(w) => w,
        None => {
            return Err(Error::new(ErrorCode::InvalidTermDefinition));
        },
    };
    let is_type = text_eq(term, "@type");
    if is_type && !check_type_definition(written) {
        return Err(Error::new(ErrorCode::KeywordRedefinition));
    }
    if !is_type && check_keyword(term) {
        return Err(Error::new(ErrorCode::KeywordRedefinition));
    }
    if !is_type && check_keyword_form(term) {
        assoc_put(defined, term.to_owned(), false);
        return Ok(());
    }
    define_written_exec(active, defined, d, term, written, protected, base, loader, remote, opts, rf, tf, Ghost(env))
}

/// Whether `key` is an entry of a context definition that defines no term.
fn check_context_keyword(key: &str) -> (r: bool)
    ensures
        r == is_context_keyword(key@),
{
    text_eq(key, "@base") || text_eq(key, "@direction") || text_eq(key, "@import") || text_eq(key, "@language")
        || text_eq(key, "@propagate") || text_eq(key, "@protected") || text_eq(key, "@version") || text_eq(
        key,
        "@vocab",
    )
}

/// Defines the terms of the context `d`.
pub(crate) fn define_terms_exec<L: Loader>(
    active: &mut ActiveContext,
    defined: &mut Vec<(String, bool)>,
    d: &Json,
    protected: bool,
    base: &Option<IriBuf>,
    loader: &mut L,
    remote: &Vec<String>,
    opts: Options,
    rf: usize,
    Ghost(env): Ghost<Env>,
) -> (r: Result<(), Error<L::Error>>)
    requires
        env_matches(env, *base, *old(loader), remote@),
    ensures
        well_caused::<_, L>(r, env.found),
        env_matches(env, *base, *final(loader), remote@),
        match r {
            Ok(()) => define_terms(state_of(*old(active), *old(defined)), d@, 0, protected, env, opts, rf as nat)
                == Ok::<State, ErrorCode>(state_of(*final(active), *final(defined))),
            Err(e) => define_terms(state_of(*old(active), *old(defined)), d@, 0, protected, env, opts, rf as nat)
                == Err::<State, ErrorCode>(e.code),
        },
    decreases rf, d, entries_of(d@).len() + 1, 0int,
{
    let ghost start = state_of(*active, *defined);
    let ghost whole = define_terms(start, d@, 0, protected, env, opts, rf as nat);
    match d {
        Json::Object(entries) => {
            let ghost views = entries_view(entries@);
            let mut k: usize = 0;
            while k < entries.len()
                invariant
                    k <= entries.len(),
                    d@ == JsonView::Object(views),
                    views == entries_view(entries@),
                    *d == Json::Object(*entries),
                    whole == define_terms(
                        state_of(*old(active), *old(defined)),
                        d@,
                        0,
                        protected,
                        env,
                        opts,
                        rf as nat,
                    ),
                    env_matches(env, *base, *loader, remote@),
                    define_terms(state_of(*active, *defined), d@, k as int, protected, env, opts, rf as nat)
                        == whole,
                decreases entries.len() - k,
            {
                let key = entries[k].0.as_str();
                assert(views[k as int].0 == key@);
                assert(entries_of(d@) == views);
                let ghost before = state_of(*active, *defined);
                if !check_context_keyword(key) {
                    match define_term_exec(
                        active,
                        defined,
                        d,
                        key,
                        protected,
                        base,
                        loader,
                        remote,
                        opts,
                        rf,
                        entries.len(),
                        Ghost(env),
                    ) {
                        Err(e) => {
                            assert(define_terms(before, d@, k as int, protected, env, opts, rf as nat) == Err::<
                                State,
                                ErrorCode,
                            >(e.code));
                            return Err(e);
                        },
                        Ok(()) => {
                            assert(define_terms(before, d@, k as int, protected, env, opts, rf as nat)
                                == define_terms(
                                state_of(*active, *defined),
                                d@,
                                k + 1,
                                protected,
                                env,
                                opts,
                                rf as nat,
                            ));
                        },
                    }
                } else {
                    assert(define_terms(before, d@, k as int, protected, env, opts, rf as nat) == define_terms(
                        before,
                        d@,
                        k + 1,
                        protected,
                        env,
                        opts,
                        rf as nat,
                    ));
                }
                k = k + 1;
            }
            Ok(())
        },
        _ => Ok(()),
    }
}

} // verus!
