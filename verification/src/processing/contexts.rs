//! The processing of contexts.

use vstd::prelude::*;
use vstd::string::*;

use crate::assoc::{assoc_lookup, assoc_model};
use crate::context::{clone_active, clone_text, ActiveContext, ActiveContextModel};
use crate::error::{Error, ErrorCode};
use crate::iri::IriBuf;
use crate::json::{clone_entries, clone_json, entries_view, items_view, lemma_entries_view, push_entry, Json, JsonView};
use crate::loader::{Loader, well_caused};
use crate::object::value::{text_of, Direction};
use crate::processing::model::{
    base_of, direction_of, entries_of, flag_of, import_of, language_of, process_context,
    process_definition, process_entries, process_items, process_value, remote_url, settings_of, vocab_of,
    Env, Options, MAX_REMOTE_CONTEXTS,
};
use crate::processing::terms::{check_names_node, define_terms_exec, env_matches, texts};
use crate::text::text_eq;

verus! {

/// The text of an optional IRI.
pub open spec fn iri_text(iri: Option<IriBuf>) -> Option<Seq<char>> {
    match iri {
        Some(i) => Some(i@),
        None => None,
    }
}

/// The IRI of a remote context.
fn resolve_remote(s: &str, base: &Option<IriBuf>) -> (r: Option<IriBuf>)
    ensures
        iri_text(r) == remote_url(s@, iri_text(*base)),
{
    if let Some(b) = base {
        let _ = b.as_str();
        if let Some(u) = b.resolve(s) {
            return Some(u);
        }
    }
    IriBuf::from_str(s)
}

/// Whether `url` is among `remote`.
fn is_among(remote: &Vec<String>, url: &str) -> (r: bool)
    ensures
        r == texts(remote@).contains(url@),
{
    let mut i: usize = 0;
    while i < remote.len()
        invariant
            i <= remote.len(),
            forall|j: int| 0 <= j < i ==> texts(remote@)[j] != url@,
        decreases remote.len() - i,
    {
        if text_eq(remote[i].as_str(), url) {
            assert(texts(remote@)[i as int] == url@);
            return true;
        }
        i = i + 1;
    }
    false
}

/// `remote` with `url` at its end.
fn with_remote(remote: &Vec<String>, url: &str) -> (r: Vec<String>)
    ensures
        texts(r@) == texts(remote@).push(url@),
{
    let mut copy: Vec<String> = Vec::new();
    let mut i: usize = 0;
    while i < remote.len()
        invariant
            i <= remote.len(),
            copy.len() == i,
            forall|j: int| 0 <= j < i ==> copy@[j]@ == remote@[j]@,
        decreases remote.len() - i,
    {
        copy.push(remote[i].clone());
        i = i + 1;
    }
    copy.push(url.to_owned());
    assert(texts(copy@) =~= texts(remote@).push(url@));
    copy
}

/// The entries of `a` followed by those of `b`.
fn joined_entries(a: &Vec<(String, Json)>, b: &Vec<(String, Json)>) -> (r: Vec<(String, Json)>)
    ensures
        entries_view(r@) == entries_view(a@) + entries_view(b@),
{
    let mut joined = clone_entries(a);
    let ghost head = entries_view(joined@);
    let mut i: usize = 0;
    while i < b.len()
        invariant
            i <= b.len(),
            head == entries_view(a@),
            entries_view(joined@) == head + entries_view(b@).take(i as int),
        decreases b.len() - i,
    {
        let ghost before = entries_view(joined@);
        push_entry(&mut joined, b[i].0.as_str(), clone_json(&b[i].1));
        assert(entries_view(b@)[i as int] == (b@[i as int].0@, b@[i as int].1@));
        assert(before.push((b@[i as int].0@, b@[i as int].1@)) =~= head + entries_view(b@).take(i + 1));
        i = i + 1;
    }
    assert(entries_view(b@).take(b.len() as int) =~= entries_view(b@));
    joined
}

/// Sets the base IRI as the `@base` entry of a context definition says.
fn apply_base(active: &mut ActiveContext, d: &Json, remote: &Vec<String>, Ghost(env): Ghost<Env>) -> (r: Result<
    (),
    ErrorCode,
>)
    requires
        env.remote == texts(remote@),
    ensures
        match r {
            Ok(()) => base_of(old(active)@, d@, env) == Ok::<Option<Seq<char>>, ErrorCode>(final(active)@.base)
                && final(active)@ == (ActiveContextModel { base: final(active)@.base, ..old(active)@ }),
            Err(e) => base_of(old(active)@, d@, env) == Err::<Option<Seq<char>>, ErrorCode>(e),
        },
{
    match d.get("@base") {
        None => Ok(()),
        Some(v) => {
            if remote.len() > 0 {
                return Ok(());
            }
            match v {
                Json::Null => {
                    active.base = None;
                    Ok(())
                },
                Json::Text(s) => {
                    let direct = IriBuf::from_str(s.as_str());
                    let resolved = match direct {
                        Some(iri) => Some(iri),
                        None => match &active.base {
                            Some(b) => {
                                let _ = b.as_str();
                                b.resolve(s.as_str())
                            },
                            None => None,
                        },
                    };
                    match resolved {
                        Some(iri) => {
                            active.base = Some(iri);
                            Ok(())
                        },
                        None => Err(ErrorCode::InvalidBaseIri),
                    }
                },
                _ => Err(ErrorCode::InvalidBaseIri),
            }
        },
    }
}

/// The vocabulary mapping after the `@vocab` entry of a context definition.
fn read_vocab(active: &ActiveContext, d: &Json) -> (r: Result<Option<String>, ErrorCode>)
    ensures
        match r {
            Ok(v) => vocab_of(active@, d@) == Ok::<Option<Seq<char>>, ErrorCode>(text_of(v)),
            Err(e) => vocab_of(active@, d@) == Err::<Option<Seq<char>>, ErrorCode>(e),
        },
{
    match d.get("@vocab") {
        None => Ok(clone_text(&active.vocab)),
        Some(Json::Null) => Ok(None),
        Some(Json::Text(s)) => match active.expand_iri(s.as_str(), true, true) {
            Some(iri) => {
                if check_names_node(iri.as_str()) {
                    Ok(Some(iri))
                } else {
                    Err(ErrorCode::InvalidVocabMapping)
                }
            },
            None => Err(ErrorCode::InvalidVocabMapping),
        },
        Some(_) => Err(ErrorCode::InvalidVocabMapping),
    }
}

/// The default language after the `@language` entry of a context definition.
fn read_language(active: &ActiveContext, d: &Json) -> (r: Result<Option<String>, ErrorCode>)
    ensures
        match r {
            Ok(v) => language_of(active@, d@) == Ok::<Option<Seq<char>>, ErrorCode>(text_of(v)),
            Err(e) => language_of(active@, d@) == Err::<Option<Seq<char>>, ErrorCode>(e),
        },
{
    match d.get("@language") {
        None => Ok(clone_text(&active.language)),
        Some(Json::Null) => Ok(None),
        Some(Json::Text(s)) => Ok(Some(s.clone())),
        Some(_) => Err(ErrorCode::InvalidDefaultLanguage),
    }
}

/// The default direction after the `@direction` entry of a context definition.
fn read_direction(active: &ActiveContext, d: &Json) -> (r: Result<Option<Direction>, ErrorCode>)
    ensures
        r == direction_of(active@, d@),
{
    match d.get("@direction") {
        None => Ok(active.direction),
        Some(Json::Null) => Ok(None),
        Some(Json::Text(s)) => {
            if text_eq(s.as_str(), "ltr") {
                Ok(Some(Direction::Ltr))
            } else if text_eq(s.as_str(), "rtl") {
                Ok(Some(Direction::Rtl))
            } else {
                Err(ErrorCode::InvalidBaseDirection)
            }
        },
        Some(_) => Err(ErrorCode::InvalidBaseDirection),
    }
}

/// What an entry of a context definition that must be a truth value holds.
fn read_flag(d: &Json, key: &str, default: bool, error: ErrorCode) -> (r: Result<bool, ErrorCode>)
    ensures
        r == flag_of(d@, key@, default, error),
{
    match d.get(key) {
        None => Ok(default),
        Some(Json::Boolean(b)) => Ok(*b),
        Some(_) => Err(error),
    }
}

/// Applies the settings of a context definition, but for the base IRI.
fn apply_settings(active: &mut ActiveContext, d: &Json) -> (r: Result<bool, ErrorCode>)
    ensures
        match r {
            Ok(protected) => settings_of(old(active)@, d@) == Ok::<(ActiveContextModel, bool), ErrorCode>(
                (final(active)@, protected),
            ),
            Err(e) => settings_of(old(active)@, d@) == Err::<(ActiveContextModel, bool), ErrorCode>(e),
        },
{
    let vocab = match read_vocab(active, d) {
        Err(e) => {
            return Err(e);
        },
        Ok(v) => v,
    };
    let language = match read_language(active, d) {
        Err(e) => {
            return Err(e);
        },
        Ok(v) => v,
    };
    let direction = match read_direction(active, d) {
        Err(e) => {
            return Err(e);
        },
        Ok(v) => v,
    };
    match read_flag(d, "@propagate", true, ErrorCode::InvalidPropagateValue) {
        Err(e) => {
            return Err(e);
        },
        Ok(_) => {},
    }
    let protected = match read_flag(d, "@protected", false, ErrorCode::InvalidProtectedValue) {
        Err(e) => {
            return Err(e);
        },
        Ok(v) => v,
    };
    active.vocab = vocab;
    active.language = language;
    active.direction = direction;
    Ok(protected)
}

/// Processes the entries of a context definition.
fn process_entries_exec<L: Loader>(
    active: ActiveContext,
    d: &Json,
    base: &Option<IriBuf>,
    loader: &mut L,
    remote: &Vec<String>,
    opts: Options,
    rf: usize,
    Ghost(env): Ghost<Env>,
) -> (r: Result<ActiveContext, Error<L::Error>>)
    requires
        env_matches(env, *base, *old(loader), remote@),
    ensures
        well_caused::<_, L>(r, env.found),
        env_matches(env, *base, *final(loader), remote@),
        match r {
            Ok(a) => process_entries(active@, d@, env, opts, rf as nat) == Ok::<ActiveContextModel, ErrorCode>(a@),
            Err(e) => process_entries(active@, d@, env, opts, rf as nat) == Err::<ActiveContextModel, ErrorCode>(
                e.code,
            ),
        },
    decreases rf, d, entries_of(d@).len() + 2, 0int,
{
    let mut active = active;
    match apply_base(&mut active, d, remote, Ghost(env)) {
        Err(code) => {
            return Err(Error::new(code));
        },
        Ok(()) => {},
    }
    let protected = match apply_settings(&mut active, d) {
        Err(code) => {
            return Err(Error::new(code));
        },
        Ok(p) => p,
    };
    let mut defined: Vec<(String, bool)> = Vec::new();
    assert(assoc_model(defined@) =~= Seq::empty());
    match define_terms_exec(&mut active, &mut defined, d, protected, base, loader, remote, opts, rf, Ghost(env)) {
        Err(e) => Err(e),
        Ok(()) => Ok(active),
    }
}

/// Loads what a context definition imports, and puts its entries behind those of the definition.
fn import_exec<L: Loader>(
    d: &Json,
    s: &str,
    base: &Option<IriBuf>,
    loader: &mut L,
    remote: &Vec<String>,
    rf: usize,
    Ghost(env): Ghost<Env>,
) -> (r: Result<Json, Error<L::Error>>)
    requires
        env_matches(env, *base, *old(loader), remote@),
    ensures
        well_caused::<_, L>(r, env.found),
        env_matches(env, *base, *final(loader), remote@),
        match r {
            Ok(j) => import_of(d@, s@, env, rf as nat) == Ok::<JsonView, ErrorCode>(j@),
            Err(e) => import_of(d@, s@, env, rf as nat) == Err::<JsonView, ErrorCode>(e.code),
        },
{
    let url = match resolve_remote(s, base) {
        None => {
            return Err(Error::new(ErrorCode::InvalidImportValue));
        },
        Some(u) => u,
    };
    if rf == 0 {
        return Err(Error::new(ErrorCode::ContextOverflow));
    }
    match loader.load(&url) {
        Err(cause) => Err(Error::loading(cause)),
        Ok(doc) => {
            let content = doc.into_document();
            match content.get("@context") {
                Some(Json::Object(imported)) => {
                    proof {
                        lemma_entries_view(imported@);
                    }
                    if assoc_lookup(imported, "@import").is_some() {
                        return Err(Error::new(ErrorCode::InvalidContextEntry));
                    }
                    let merged = match d {
                        Json::Object(entries) => Json::Object(joined_entries(entries, imported)),
                        _ => Json::Object(clone_entries(imported)),
                    };
                    assert(merged@ == JsonView::Object(entries_of(d@) + entries_view(imported@))) by {
                        assert(Seq::<(Seq<char>, JsonView)>::empty() + entries_view(imported@) =~= entries_view(
                            imported@,
                        ));
                    }
                    Ok(merged)
                },
                _ => Err(Error::new(ErrorCode::InvalidRemoteContext)),
            }
        },
    }
}

/// Processes a context definition.
fn process_definition_exec<L: Loader>(
    active: ActiveContext,
    d: &Json,
    base: &Option<IriBuf>,
    loader: &mut L,
    remote: &Vec<String>,
    opts: Options,
    rf: usize,
    Ghost(env): Ghost<Env>,
) -> (r: Result<ActiveContext, Error<L::Error>>)
    requires
        env_matches(env, *base, *old(loader), remote@),
    ensures
        well_caused::<_, L>(r, env.found),
        env_matches(env, *base, *final(loader), remote@),
        match r {
            Ok(a) => process_definition(active@, d@, env, opts, rf as nat) == Ok::<ActiveContextModel, ErrorCode>(
                a@,
            ),
            Err(e) => process_definition(active@, d@, env, opts, rf as nat) == Err::<
                ActiveContextModel,
                ErrorCode,
            >(e.code),
        },
    decreases rf, d, entries_of(d@).len() + 3, 0int,
{
    match d.get("@version") {
        None => {},
        Some(Json::Number(n)) => {
            if !text_eq(n.as_str(), "1.1") {
                return Err(Error::new(ErrorCode::InvalidVersionValue));
            }
        },
        Some(_) => {
            return Err(Error::new(ErrorCode::InvalidVersionValue));
        },
    }
    match d.get("@import") {
        None => process_entries_exec(active, d, base, loader, remote, opts, rf, Ghost(env)),
        Some(Json::Text(s)) => match import_exec(d, s.as_str(), base, loader, remote, rf, Ghost(env)) {
            Err(e) => Err(e),
            Ok(merged) => process_entries_exec(active, &merged, base, loader, remote, opts, rf - 1, Ghost(env)),
        },
        Some(_) => Err(Error::new(ErrorCode::InvalidImportValue)),
    }
}

/// Processes one context.
fn process_context_exec<L: Loader>(
    active: ActiveContext,
    c: &Json,
    base: &Option<IriBuf>,
    loader: &mut L,
    remote: &Vec<String>,
    opts: Options,
    rf: usize,
    Ghost(env): Ghost<Env>,
) -> (r: Result<ActiveContext, Error<L::Error>>)
    requires
        env_matches(env, *base, *old(loader), remote@),
    ensures
        well_caused::<_, L>(r, env.found),
        env_matches(env, *base, *final(loader), remote@),
        match r {
            Ok(a) => process_context(active@, c@, env, opts, rf as nat) == Ok::<ActiveContextModel, ErrorCode>(a@),
            Err(e) => process_context(active@, c@, env, opts, rf as nat) == Err::<ActiveContextModel, ErrorCode>(
                e.code,
            ),
        },
    decreases rf, c, entries_of(c@).len() + 4, 0int,
{
    match c {
        Json::Null => {
            if !opts.override_protected && active.has_protected_terms() {
                return Err(Error::new(ErrorCode::InvalidContextNullification));
            }
            let mut fresh = ActiveContext::new(
                match &active.base {
                    Some(b) => Some(b.clone()),
                    None => None,
                },
            );
            if !opts.propagate {
                fresh.previous = Some(Box::new(active));
            }
            Ok(fresh)
        },
        Json::Text(s) => {
            let url = match resolve_remote(s.as_str(), base) {
                None => {
                    return Err(Error::new(ErrorCode::LoadingRemoteContextFailed));
                },
                Some(u) => u,
            };
            if is_among(remote, url.as_str()) {
                if opts.validate_scoped {
                    return Err(Error::new(ErrorCode::RecursiveContextInclusion));
                } else {
                    return Ok(active);
                }
            }
            if rf == 0 {
                return Err(Error::new(ErrorCode::ContextOverflow));
            }
            match loader.load(&url) {
                Err(cause) => Err(Error::loading(cause)),
                Ok(doc) => {
                    let (content, at) = doc.into_parts();
                    match content.get("@context") {
                        None => Err(Error::new(ErrorCode::InvalidRemoteContext)),
                        Some(inner) => {
                            let remote2 = with_remote(remote, url.as_str());
                            let base2 = Some(at);
                            let ghost env2 = Env { base: Some(at@), remote: env.remote.push(url@), ..env };
                            process_value_exec(
                                &active,
                                inner,
                                &base2,
                                loader,
                                &remote2,
                                Options { propagate: true, ..opts },
                                rf - 1,
                                Ghost(env2),
                            )
                        },
                    }
                },
            }
        },
        Json::Object(_) => process_definition_exec(active, c, base, loader, remote, opts, rf, Ghost(env)),
        _ => Err(Error::new(ErrorCode::InvalidLocalContext)),
    }
}

/// Processes the contexts of an array, each on the result of the one before.
fn process_items_exec<L: Loader>(
    active: ActiveContext,
    items: &Vec<Json>,
    base: &Option<IriBuf>,
    loader: &mut L,
    remote: &Vec<String>,
    opts: Options,
    rf: usize,
    Ghost(env): Ghost<Env>,
) -> (r: Result<ActiveContext, Error<L::Error>>)
    requires
        env_matches(env, *base, *old(loader), remote@),
    ensures
        well_caused::<_, L>(r, env.found),
        env_matches(env, *base, *final(loader), remote@),
        match r {
            Ok(a) => process_items(active@, items_view(items@), 0, env, opts, rf as nat) == Ok::<
                ActiveContextModel,
                ErrorCode,
            >(a@),
            Err(e) => process_items(active@, items_view(items@), 0, env, opts, rf as nat) == Err::<
                ActiveContextModel,
                ErrorCode,
            >(e.code),
        },
    decreases rf, items, 0nat, 0int,
{
    let ghost views = items_view(items@);
    let ghost whole = process_items(active@, views, 0, env, opts, rf as nat);
    let mut current = active;
    let mut k: usize = 0;
    while k < items.len()
        invariant
            k <= items.len(),
            views == items_view(items@),
            env_matches(env, *base, *loader, remote@),
            whole == process_items(active@, views, 0, env, opts, rf as nat),
            process_items(current@, views, k as int, env, opts, rf as nat) == whole,
        decreases items.len() - k,
    {
        assert(views[k as int] == items@[k as int]@);
        let ghost before = current@;
        match process_context_exec(current, &items[k], base, loader, remote, opts, rf, Ghost(env)) {
            Err(e) => {
                assert(process_items(before, views, k as int, env, opts, rf as nat) == Err::<
                    ActiveContextModel,
                    ErrorCode,
                >(e.code));
                return Err(e);
            },
            Ok(a) => {
                assert(process_items(before, views, k as int, env, opts, rf as nat) == process_items(
                    a@,
                    views,
                    k + 1,
                    env,
                    opts,
                    rf as nat,
                ));
                current = a;
            },
        }
        k = k + 1;
    }
    Ok(current)
}

/// Processes the value of an `@context` entry.
pub(crate) fn process_value_exec<L: Loader>(
    active: &ActiveContext,
    local: &Json,
    base: &Option<IriBuf>,
    loader: &mut L,
    remote: &Vec<String>,
    opts: Options,
    rf: usize,
    Ghost(env): Ghost<Env>,
) -> (r: Result<ActiveContext, Error<L::Error>>)
    requires
        env_matches(env, *base, *old(loader), remote@),
    ensures
        well_caused::<_, L>(r, env.found),
        env_matches(env, *base, *final(loader), remote@),
        match r {
            Ok(a) => process_value(active@, local@, env, opts, rf as nat) == Ok::<ActiveContextModel, ErrorCode>(
                a@,
            ),
            Err(e) => process_value(active@, local@, env, opts, rf as nat) == Err::<ActiveContextModel, ErrorCode>(
                e.code,
            ),
        },
    decreases rf, local, entries_of(local@).len() + 5, 0int,
{
    let propagate = match local.get("@propagate") {
        Some(Json::Boolean(b)) => *b,
        _ => opts.propagate,
    };
    let mut start = clone_active(active);
    if !propagate && start.previous.is_none() {
        start.previous = Some(Box::new(clone_active(active)));
    }
    let o = Options { propagate, ..opts };
    match local {
        Json::Array(items) => {
            assert(*items == local->Array_0);
            process_items_exec(start, items, base, loader, remote, o, rf, Ghost(env))
        },
        _ => process_context_exec(start, local, base, loader, remote, o, rf, Ghost(env)),
    }
}

/// What the loader finds for each IRI.
pub open spec fn found_by<L: Loader>(loader: L) -> spec_fn(Seq<char>) -> Option<(Seq<char>, JsonView)> {
    |u: Seq<char>| loader.found(u)
}

/// The active context that comes of processing the context `local` on `active`.
///
/// `base` is the IRI of the document that holds the context, and `found`
/// says what the loader finds for each IRI. At most `MAX_REMOTE_CONTEXTS`
/// remote contexts are followed one from another.
pub open spec fn processed(
    active: ActiveContextModel,
    local: JsonView,
    base: Option<Seq<char>>,
    found: spec_fn(Seq<char>) -> Option<(Seq<char>, JsonView)>,
    opts: Options,
) -> Result<ActiveContextModel, ErrorCode> {
    process_value(active, local, Env { base, found, remote: Seq::empty() }, opts, MAX_REMOTE_CONTEXTS as nat)
}

/// Processes the context `local` on the active context `active`.
///
/// `base` is the IRI of the document that holds the context. Remote contexts
/// are fetched with `loader`.
pub fn process<L: Loader>(
    active: &ActiveContext,
    local: &Json,
    base: &Option<IriBuf>,
    loader: &mut L,
    opts: Options,
) -> (r: Result<ActiveContext, Error<L::Error>>)
    ensures
        well_caused::<_, L>(r, found_by(*old(loader))),
        forall|u: Seq<char>| #[trigger] final(loader).found(u) == old(loader).found(u),
        match r {
            Ok(a) => processed(active@, local@, iri_text(*base), found_by(*old(loader)), opts) == Ok::<
                ActiveContextModel,
                ErrorCode,
            >(a@),
            Err(e) => processed(active@, local@, iri_text(*base), found_by(*old(loader)), opts) == Err::<
                ActiveContextModel,
                ErrorCode,
            >(e.code),
        },
{
    let remote: Vec<String> = Vec::new();
    let ghost env = Env { base: iri_text(*base), found: found_by(*loader), remote: Seq::empty() };
    assert(texts(remote@) =~= Seq::empty());
    let ghost before = *loader;
    let r = process_value_exec(active, local, base, loader, &remote, opts, MAX_REMOTE_CONTEXTS, Ghost(env));
    assert forall|u: Seq<char>| #[trigger] loader.found(u) == before.found(u) by {
        assert((env.found)(u) == before.found(u));
    }
    r
}

} // verus!
