//! The expansion of the elements of a document.

use vstd::prelude::*;
use vstd::string::*;

use crate::context::{ActiveContext, ActiveContextModel, TermDefinition};
use crate::error::{Error, ErrorCode};
use crate::expansion::model::{
    context_of_term,
    context_within,
    embedded,
    expand_element,
    expand_entries,
    expand_entry,
    expand_items,
    expand_nested,
    expand_nests,
    expand_object,
    expand_property,
    expand_reverse,
    expanded,
    has_container,
    list_object_keys,
    scoped,
    set_object_keys,
    tagged_map,
    unwrapped,
    MapKind,
    NodeState,
};
use crate::expansion::maps::{check_holds_graphs, graphs_of_exec, language_map_exec, map_kind_exec, with_tag_exec};
use crate::expansion::nodes::{
    add_graph, add_included, add_property, add_reverse_property, add_types, as_list_exec, check_bare,
    nodes_of_exec, read_node_types, set_id,
};
use crate::expansion::values::{
    check_free_floating, check_keys_among, check_list_property, entry_at, expand_scalar_exec,
    expand_value_object_exec, find_entry, literal_of_exec, make_id, new_node, property_direction, read_index,
    reference, slice_text, slice_texts, ExpandedNode, ExpandedObject,
};
use crate::iri::IriBuf;
use crate::json::{entries_view, items_view, Json, JsonView};
use crate::loader::{Loader, well_caused};
use crate::object::indexed::Indexed;
use crate::object::model::{
    append_objects, indexed_object_model, node_model, object_model, objects_model, push_object,
    IndexedObjectModel, ObjectModel,
};
use crate::object::node::{List, Object};
use crate::object::value::text_of;
use crate::syntax::context::ContainerKind;
use crate::processing::contexts::{found_by, iri_text, process_value_exec};
use crate::processing::model::{Env, Options, MAX_REMOTE_CONTEXTS};
use crate::processing::terms::{env_matches, texts};
use crate::text::{check_keyword, find_char, text_eq};

verus! {

/// How contexts that stand within a document are processed.
fn embedded_options() -> (r: Options)
    ensures
        r == embedded(),
{
    Options { override_protected: false, propagate: true, validate_scoped: true }
}

/// How the context of a term is processed.
fn scoped_options() -> (r: Options)
    ensures
        r == scoped(),
{
    Options { override_protected: true, propagate: true, validate_scoped: true }
}

/// The active context within an object, where it is another than `active`.
fn context_within_exec<L: Loader>(
    active: &ActiveContext,
    element: &Json,
    base: &Option<IriBuf>,
    loader: &mut L,
    Ghost(env): Ghost<Env>,
) -> (r: Result<Option<ActiveContext>, Error<L::Error>>)
    requires
        env_matches(env, *base, *old(loader), Seq::empty()),
    ensures
        well_caused::<_, L>(r, env.found),
        env_matches(env, *base, *final(loader), Seq::empty()),
        match r {
            Ok(Some(a)) => context_within(active@, element@, env) == Ok::<ActiveContextModel, ErrorCode>(a@),
            Ok(None) => context_within(active@, element@, env) == Ok::<ActiveContextModel, ErrorCode>(active@),
            Err(e) => context_within(active@, element@, env) == Err::<ActiveContextModel, ErrorCode>(e.code),
        },
{
    match element.get("@context") {
        Some(c) => {
            let remote: Vec<String> = Vec::new();
            assert(texts(remote@) =~= Seq::empty());
            match process_value_exec(
                active,
                c,
                base,
                loader,
                &remote,
                embedded_options(),
                MAX_REMOTE_CONTEXTS,
                Ghost(env),
            ) {
                Ok(a) => Ok(Some(a)),
                Err(e) => Err(e),
            }
        },
        None => Ok(None),
    }
}

/// The plain data of an optional definition.
pub open spec fn definition_model(def: Option<&TermDefinition>) -> Option<crate::context::TermDefinitionModel> {
    match def {
        Some(d) => Some(d@),
        None => None,
    }
}

/// The active context within the values of a term, where it is another than `active`.
fn context_of_term_exec<L: Loader>(
    active: &ActiveContext,
    def: Option<&TermDefinition>,
    base: &Option<IriBuf>,
    loader: &mut L,
    Ghost(env): Ghost<Env>,
) -> (r: Result<Option<ActiveContext>, Error<L::Error>>)
    requires
        env_matches(env, *base, *old(loader), Seq::empty()),
    ensures
        well_caused::<_, L>(r, env.found),
        env_matches(env, *base, *final(loader), Seq::empty()),
        match r {
            Ok(Some(a)) => context_of_term(active@, definition_model(def), env) == Ok::<
                ActiveContextModel,
                ErrorCode,
            >(a@),
            Ok(None) => context_of_term(active@, definition_model(def), env) == Ok::<ActiveContextModel, ErrorCode>(
                active@,
            ),
            Err(e) => context_of_term(active@, definition_model(def), env) == Err::<ActiveContextModel, ErrorCode>(
                e.code,
            ),
        },
{
    let context = match def {
        Some(d) => match &d.context {
            Some(c) => Some(c),
            None => None,
        },
        None => None,
    };
    match context {
        Some(c) => {
            let remote: Vec<String> = Vec::new();
            assert(texts(remote@) =~= Seq::empty());
            match process_value_exec(
                active,
                c,
                base,
                loader,
                &remote,
                scoped_options(),
                MAX_REMOTE_CONTEXTS,
                Ghost(env),
            ) {
                Ok(a) => Ok(Some(a)),
                Err(e) => Err(e),
            }
        },
        None => Ok(None),
    }
}

/// The node in the making, with its index, as plain data.
pub open spec fn node_state(node: ExpandedNode, index: Option<String>) -> NodeState {
    NodeState { node: node_model(node), index: text_of(index) }
}

/// The objects that the items of an array stand for, one after the other.
fn expand_items_exec<L: Loader>(
    active: &ActiveContext,
    property: &Option<&str>,
    items: &Vec<Json>,
    base: &Option<IriBuf>,
    loader: &mut L,
    Ghost(env): Ghost<Env>,
) -> (r: Result<Vec<Indexed<ExpandedObject>>, Error<L::Error>>)
    requires
        env_matches(env, *base, *old(loader), Seq::empty()),
    ensures
        well_caused::<_, L>(r, env.found),
        env_matches(env, *base, *final(loader), Seq::empty()),
        match r {
            Ok(os) => expand_items(active@, slice_text(*property), items_view(items@), items.len() as int, env)
                == Ok::<Seq<IndexedObjectModel>, ErrorCode>(objects_model(os@)),
            Err(e) => expand_items(active@, slice_text(*property), items_view(items@), items.len() as int, env)
                == Err::<Seq<IndexedObjectModel>, ErrorCode>(e.code),
        },
    decreases items, 0int, 1int,
{
    let ghost views = items_view(items@);
    let ghost p = slice_text(*property);
    let nested = check_list_property(active, property);
    let mut os: Vec<Indexed<ExpandedObject>> = Vec::new();
    assert(objects_model(os@) =~= Seq::empty());
    let mut k: usize = 0;
    while k < items.len()
        invariant
            k <= items.len(),
            views == items_view(items@),
            p == slice_text(*property),
            nested == crate::expansion::model::is_list_property(active@, p),
            env_matches(env, *base, *loader, Seq::empty()),
            expand_items(active@, p, views, k as int, env) == Ok::<Seq<IndexedObjectModel>, ErrorCode>(
                objects_model(os@),
            ),
        decreases items.len() - k,
    {
        assert(views[k as int] == items@[k as int]@);
        let objects = match expand_element_exec(active, property, &items[k], base, loader, Ghost(env)) {
            Err(e) => {
                proof {
                    assert(expand_items(active@, p, views, k + 1, env) is Err);
                    lemma_expand_items_fail(active@, p, views, k + 1, items.len() as int, env);
                }
                return Err(e);
            },
            Ok(objects) => objects,
        };
        let array = match &items[k] {
            Json::Array(_) => true,
            _ => false,
        };
        if array && nested {
            push_object(&mut os, Indexed { inner: Object::List(List { items: objects }), index: None });
        } else {
            append_objects(&mut os, objects);
        }
        k = k + 1;
    }
    Ok(os)
}

/// Where the first items fail, more items fail the same.
proof fn lemma_expand_items_fail(
    active: ActiveContextModel,
    property: Option<Seq<char>>,
    items: Seq<JsonView>,
    i: int,
    k: int,
    env: Env,
)
    requires
        0 <= i <= k <= items.len(),
        expand_items(active, property, items, i, env) is Err,
    ensures
        expand_items(active, property, items, k, env) == expand_items(active, property, items, i, env),
    decreases k - i,
{
    if i < k {
        lemma_expand_items_fail(active, property, items, i, k - 1, env);
    }
}

/// The keywords that may stand in a list object.
fn list_keys() -> (r: Vec<&'static str>)
    ensures
        slice_texts(r@) == list_object_keys(),
{
    let mut r: Vec<&'static str> = Vec::new();
    r.push("@list");
    r.push("@index");
    r.push("@context");
    assert(slice_texts(r@) =~= list_object_keys());
    r
}

/// The keywords that may stand in a set object.
fn set_keys() -> (r: Vec<&'static str>)
    ensures
        slice_texts(r@) == set_object_keys(),
{
    let mut r: Vec<&'static str> = Vec::new();
    r.push("@set");
    r.push("@index");
    r.push("@context");
    assert(slice_texts(r@) =~= set_object_keys());
    r
}

/// What the values of the property `key`, which stands for `iri`, add to a node in the making.
fn expand_property_exec<L: Loader>(
    active: &ActiveContext,
    key: &str,
    iri: String,
    value: &Json,
    node: &mut ExpandedNode,
    flip: bool,
    base: &Option<IriBuf>,
    loader: &mut L,
    Ghost(env): Ghost<Env>,
    Ghost(index): Ghost<Option<Seq<char>>>,
) -> (r: Result<(), Error<L::Error>>)
    requires
        env_matches(env, *base, *old(loader), Seq::empty()),
    ensures
        well_caused::<_, L>(r, env.found),
        env_matches(env, *base, *final(loader), Seq::empty()),
        match r {
            Ok(()) => expand_property(
                active@,
                key@,
                iri@,
                value@,
                NodeState { node: node_model(*old(node)), index },
                flip,
                env,
            ) == Ok::<NodeState, ErrorCode>(NodeState { node: node_model(*final(node)), index }),
            Err(e) => expand_property(
                active@,
                key@,
                iri@,
                value@,
                NodeState { node: node_model(*old(node)), index },
                flip,
                env,
            ) == Err::<NodeState, ErrorCode>(e.code),
        },
    decreases value, 1int, 0int,
{
    let def = active.get(key);
    let within = match context_of_term_exec(active, def, base, loader, Ghost(env)) {
        Err(e) => {
            return Err(e);
        },
        Ok(w) => w,
    };
    let property = Some(key);
    let languages = match def {
        Some(d) => d.has_container(ContainerKind::Language),
        None => false,
    };
    let kind = map_kind_exec(&def);
    let objects = match value {
        Json::Object(entries) if languages => {
            match language_map_exec(active, entries, property_direction(active, &def)) {
                Ok(os) => Ok(os),
                Err(code) => Err(Error::new(code)),
            }
        },
        Json::Object(entries) if kind.is_some() => {
            assert(*entries == value->Object_0);
            match &within {
                Some(a) => tagged_map_exec(a, key, kind.unwrap(), entries, base, loader, Ghost(env)),
                None => tagged_map_exec(active, key, kind.unwrap(), entries, base, loader, Ghost(env)),
            }
        },
        _ => match &within {
            Some(a) => expand_element_exec(a, &property, value, base, loader, Ghost(env)),
            None => expand_element_exec(active, &property, value, base, loader, Ghost(env)),
        },
    };
    let objects = match objects {
        Err(e) => {
            return Err(e);
        },
        Ok(os) => os,
    };
    let objects = if check_holds_graphs(&def) {
        graphs_of_exec(objects)
    } else {
        objects
    };
    let objects = if check_list_property(active, &property) {
        let array = match value {
            Json::Array(_) => true,
            _ => false,
        };
        as_list_exec(objects, array)
    } else {
        objects
    };
    let reverse = match def {
        Some(d) => d.reverse,
        None => false,
    };
    if reverse != flip {
        match nodes_of_exec(objects) {
            None => Err(Error::new(ErrorCode::InvalidReversePropertyValue)),
            Some(ns) => {
                if ns.len() > 0 {
                    add_reverse_property(node, make_id(iri), ns);
                }
                Ok(())
            },
        }
    } else {
        if objects.len() > 0 {
            add_property(node, make_id(iri), objects);
        }
        Ok(())
    }
}

/// The objects of a map of indexes, identifiers or types.
fn tagged_map_exec<L: Loader>(
    within: &ActiveContext,
    key: &str,
    kind: MapKind,
    entries: &Vec<(String, Json)>,
    base: &Option<IriBuf>,
    loader: &mut L,
    Ghost(env): Ghost<Env>,
) -> (r: Result<Vec<Indexed<ExpandedObject>>, Error<L::Error>>)
    requires
        env_matches(env, *base, *old(loader), Seq::empty()),
    ensures
        well_caused::<_, L>(r, env.found),
        env_matches(env, *base, *final(loader), Seq::empty()),
        match r {
            Ok(os) => tagged_map(within@, key@, kind, entries_view(entries@), 0, Seq::empty(), env) == Ok::<
                Seq<IndexedObjectModel>,
                ErrorCode,
            >(objects_model(os@)),
            Err(e) => tagged_map(within@, key@, kind, entries_view(entries@), 0, Seq::empty(), env) == Err::<
                Seq<IndexedObjectModel>,
                ErrorCode,
            >(e.code),
        },
    decreases entries, 0int, 0int,
{
    let ghost views = entries_view(entries@);
    let ghost whole = tagged_map(within@, key@, kind, views, 0, Seq::empty(), env);
    let mut out: Vec<Indexed<ExpandedObject>> = Vec::new();
    assert(objects_model(out@) =~= Seq::empty());
    let property = Some(key);
    let mut k: usize = 0;
    while k < entries.len()
        invariant
            k <= entries.len(),
            views == entries_view(entries@),
            whole == tagged_map(within@, key@, kind, views, 0, Seq::empty(), env),
            property == Some(key),
            env_matches(env, *base, *loader, Seq::empty()),
            tagged_map(within@, key@, kind, views, k as int, objects_model(out@), env) == whole,
        decreases entries.len() - k,
    {
        assert(views[k as int] == (entries@[k as int].0@, entries@[k as int].1@));
        match expand_element_exec(within, &property, &entries[k].1, base, loader, Ghost(env)) {
            Err(e) => {
                assert(tagged_map(within@, key@, kind, views, k as int, objects_model(out@), env) == Err::<
                    Seq<IndexedObjectModel>,
                    ErrorCode,
                >(e.code));
                return Err(e);
            },
            Ok(objects) => {
                let given = with_tag_exec(within, objects, kind, entries[k].0.as_str());
                append_objects(&mut out, given);
            },
        }
        k = k + 1;
    }
    Ok(out)
}

/// What the entries of an `@reverse` entry add to a node in the making.
fn expand_reverse_exec<L: Loader>(
    active: &ActiveContext,
    reversed: &Vec<(String, Json)>,
    node: &mut ExpandedNode,
    base: &Option<IriBuf>,
    loader: &mut L,
    Ghost(env): Ghost<Env>,
    Ghost(index): Ghost<Option<Seq<char>>>,
) -> (r: Result<(), Error<L::Error>>)
    requires
        env_matches(env, *base, *old(loader), Seq::empty()),
    ensures
        well_caused::<_, L>(r, env.found),
        env_matches(env, *base, *final(loader), Seq::empty()),
        match r {
            Ok(()) => expand_reverse(
                active@,
                entries_view(reversed@),
                0,
                NodeState { node: node_model(*old(node)), index },
                env,
            ) == Ok::<NodeState, ErrorCode>(NodeState { node: node_model(*final(node)), index }),
            Err(e) => expand_reverse(
                active@,
                entries_view(reversed@),
                0,
                NodeState { node: node_model(*old(node)), index },
                env,
            ) == Err::<NodeState, ErrorCode>(e.code),
        },
    decreases reversed, 0int, 2int,
{
    let ghost views = entries_view(reversed@);
    let ghost whole = expand_reverse(active@, views, 0, NodeState { node: node_model(*node), index }, env);
    let mut k: usize = 0;
    while k < reversed.len()
        invariant
            k <= reversed.len(),
            views == entries_view(reversed@),
            whole == expand_reverse(active@, views, 0, NodeState { node: node_model(*old(node)), index }, env),
            env_matches(env, *base, *loader, Seq::empty()),
            expand_reverse(active@, views, k as int, NodeState { node: node_model(*node), index }, env) == whole,
        decreases reversed.len() - k,
    {
        assert(views[k as int] == (reversed@[k as int].0@, reversed@[k as int].1@));
        let ghost before = NodeState { node: node_model(*node), index };
        let key = reversed[k].0.as_str();
        match active.expand_iri(key, false, true) {
            None => {},
            Some(e) => {
                if !(check_keyword(e.as_str()) || find_char(e.as_str(), ':').is_none()) {
                    match expand_property_exec(
                        active,
                        key,
                        e,
                        &reversed[k].1,
                        node,
                        true,
                        base,
                        loader,
                        Ghost(env),
                        Ghost(index),
                    ) {
                        Err(e) => {
                            assert(expand_reverse(active@, views, k as int, before, env) == Err::<
                                NodeState,
                                ErrorCode,
                            >(e.code));
                            return Err(e);
                        },
                        Ok(()) => {},
                    }
                }
            },
        }
        assert(expand_reverse(active@, views, k as int, before, env) == expand_reverse(
            active@,
            views,
            k + 1,
            NodeState { node: node_model(*node), index },
            env,
        ));
        k = k + 1;
    }
    Ok(())
}

/// What the entry at `k` adds to a node in the making.
fn expand_entry_exec<L: Loader>(
    active: &ActiveContext,
    entries: &Vec<(String, Json)>,
    k: usize,
    node: &mut ExpandedNode,
    index: &mut Option<String>,
    base: &Option<IriBuf>,
    loader: &mut L,
    Ghost(env): Ghost<Env>,
) -> (r: Result<(), Error<L::Error>>)
    requires
        k < entries.len(),
        env_matches(env, *base, *old(loader), Seq::empty()),
    ensures
        well_caused::<_, L>(r, env.found),
        env_matches(env, *base, *final(loader), Seq::empty()),
        match r {
            Ok(()) => expand_entry(
                active@,
                entries_view(entries@),
                k as int,
                node_state(*old(node), *old(index)),
                env,
            ) == Ok::<NodeState, ErrorCode>(node_state(*final(node), *final(index))),
            Err(e) => expand_entry(
                active@,
                entries_view(entries@),
                k as int,
                node_state(*old(node), *old(index)),
                env,
            ) == Err::<NodeState, ErrorCode>(e.code),
        },
    decreases entries, 0int, 1int,
{
    let ghost views = entries_view(entries@);
    assert(views[k as int] == (entries@[k as int].0@, entries@[k as int].1@));
    let key = entries[k].0.as_str();
    let value = &entries[k].1;
    let expanded = match active.expand_iri(key, false, true) {
        None => {
            return Ok(());
        },
        Some(e) => e,
    };
    let e = expanded.as_str();
    if text_eq(e, "@id") {
        if node.id.is_some() {
            return Err(Error::new(ErrorCode::CollidingKeywords));
        }
        match value {
            Json::Text(s) => {
                set_id(node, reference(active, s.as_str(), false));
                Ok(())
            },
            _ => Err(Error::new(ErrorCode::InvalidIdValue)),
        }
    } else if text_eq(e, "@type") {
        match read_node_types(active, value) {
            Err(code) => Err(Error::new(code)),
            Ok(ts) => {
                add_types(node, ts);
                Ok(())
            },
        }
    } else if text_eq(e, "@graph") {
        let property = Some("@graph");
        match expand_element_exec(active, &property, value, base, loader, Ghost(env)) {
            Err(e) => Err(e),
            Ok(g) => {
                add_graph(node, g);
                Ok(())
            },
        }
    } else if text_eq(e, "@included") {
        let property = Some("@included");
        match expand_element_exec(active, &property, value, base, loader, Ghost(env)) {
            Err(e) => Err(e),
            Ok(objects) => match nodes_of_exec(objects) {
                None => Err(Error::new(ErrorCode::InvalidIncludedValue)),
                Some(ns) => {
                    add_included(node, ns);
                    Ok(())
                },
            },
        }
    } else if text_eq(e, "@index") {
        match value {
            Json::Text(s) => {
                *index = Some(s.clone());
                Ok(())
            },
            _ => Err(Error::new(ErrorCode::InvalidIndexValue)),
        }
    } else if text_eq(e, "@reverse") {
        match value {
            Json::Object(reversed) => {
                assert(*reversed == value->Object_0);
                expand_reverse_exec(active, reversed, node, base, loader, Ghost(env), Ghost(text_of(*index)))
            },
            _ => Err(Error::new(ErrorCode::InvalidReverseValue)),
        }
    } else if text_eq(e, "@nest") {
        match value {
            Json::Object(nested) => {
                assert(*nested == value->Object_0);
                expand_nested_exec(active, nested, node, index, base, loader, Ghost(env))
            },
            Json::Array(items) => {
                assert(*items == value->Array_0);
                expand_nests_exec(active, items, node, index, base, loader, Ghost(env))
            },
            _ => Err(Error::new(ErrorCode::InvalidNestValue)),
        }
    } else if check_keyword(e) || find_char(e, ':').is_none() {
        Ok(())
    } else {
        expand_property_exec(active, key, expanded, value, node, false, base, loader, Ghost(env), Ghost(text_of(*index)))
    }
}

/// What the entries of a nested object add to a node in the making.
fn expand_nested_exec<L: Loader>(
    active: &ActiveContext,
    nested: &Vec<(String, Json)>,
    node: &mut ExpandedNode,
    index: &mut Option<String>,
    base: &Option<IriBuf>,
    loader: &mut L,
    Ghost(env): Ghost<Env>,
) -> (r: Result<(), Error<L::Error>>)
    requires
        env_matches(env, *base, *old(loader), Seq::empty()),
    ensures
        well_caused::<_, L>(r, env.found),
        env_matches(env, *base, *final(loader), Seq::empty()),
        match r {
            Ok(()) => expand_nested(active@, entries_view(nested@), node_state(*old(node), *old(index)), env) == Ok::<
                NodeState,
                ErrorCode,
            >(node_state(*final(node), *final(index))),
            Err(e) => expand_nested(active@, entries_view(nested@), node_state(*old(node), *old(index)), env) == Err::<
                NodeState,
                ErrorCode,
            >(e.code),
        },
    decreases nested, 0int, 3int,
{
    if find_entry(active, nested, "@value").is_some() {
        return Err(Error::new(ErrorCode::InvalidNestValue));
    }
    expand_entries_exec(active, nested, node, index, base, loader, Ghost(env))
}

/// What nested objects add to a node in the making, one after the other.
fn expand_nests_exec<L: Loader>(
    active: &ActiveContext,
    items: &Vec<Json>,
    node: &mut ExpandedNode,
    index: &mut Option<String>,
    base: &Option<IriBuf>,
    loader: &mut L,
    Ghost(env): Ghost<Env>,
) -> (r: Result<(), Error<L::Error>>)
    requires
        env_matches(env, *base, *old(loader), Seq::empty()),
    ensures
        well_caused::<_, L>(r, env.found),
        env_matches(env, *base, *final(loader), Seq::empty()),
        match r {
            Ok(()) => expand_nests(active@, items_view(items@), 0, node_state(*old(node), *old(index)), env) == Ok::<
                NodeState,
                ErrorCode,
            >(node_state(*final(node), *final(index))),
            Err(e) => expand_nests(active@, items_view(items@), 0, node_state(*old(node), *old(index)), env) == Err::<
                NodeState,
                ErrorCode,
            >(e.code),
        },
    decreases items, 0int, 4int,
{
    let ghost views = items_view(items@);
    let ghost whole = expand_nests(active@, views, 0, node_state(*node, *index), env);
    let mut k: usize = 0;
    while k < items.len()
        invariant
            k <= items.len(),
            views == items_view(items@),
            whole == expand_nests(active@, views, 0, node_state(*old(node), *old(index)), env),
            env_matches(env, *base, *loader, Seq::empty()),
            expand_nests(active@, views, k as int, node_state(*node, *index), env) == whole,
        decreases items.len() - k,
    {
        assert(views[k as int] == items@[k as int]@);
        let ghost before = node_state(*node, *index);
        match &items[k] {
            Json::Object(nested) => {
                assert(*nested == items@[k as int]->Object_0);
                match expand_nested_exec(active, nested, node, index, base, loader, Ghost(env)) {
                    Err(e) => {
                        assert(expand_nests(active@, views, k as int, before, env) == Err::<NodeState, ErrorCode>(
                            e.code,
                        ));
                        return Err(e);
                    },
                    Ok(()) => {
                        assert(expand_nests(active@, views, k as int, before, env) == expand_nests(
                            active@,
                            views,
                            k + 1,
                            node_state(*node, *index),
                            env,
                        ));
                    },
                }
            },
            _ => {
                assert(expand_nests(active@, views, k as int, before, env) == Err::<NodeState, ErrorCode>(
                    ErrorCode::InvalidNestValue,
                ));
                return Err(Error::new(ErrorCode::InvalidNestValue));
            },
        }
        k = k + 1;
    }
    Ok(())
}

/// The node that the entries of an object make.
fn expand_entries_exec<L: Loader>(
    active: &ActiveContext,
    entries: &Vec<(String, Json)>,
    node: &mut ExpandedNode,
    index: &mut Option<String>,
    base: &Option<IriBuf>,
    loader: &mut L,
    Ghost(env): Ghost<Env>,
) -> (r: Result<(), Error<L::Error>>)
    requires
        env_matches(env, *base, *old(loader), Seq::empty()),
    ensures
        well_caused::<_, L>(r, env.found),
        env_matches(env, *base, *final(loader), Seq::empty()),
        match r {
            Ok(()) => expand_entries(active@, entries_view(entries@), 0, node_state(*old(node), *old(index)), env)
                == Ok::<NodeState, ErrorCode>(node_state(*final(node), *final(index))),
            Err(e) => expand_entries(active@, entries_view(entries@), 0, node_state(*old(node), *old(index)), env)
                == Err::<NodeState, ErrorCode>(e.code),
        },
    decreases entries, 0int, 2int,
{
    let ghost views = entries_view(entries@);
    let ghost whole = expand_entries(active@, views, 0, node_state(*node, *index), env);
    let mut k: usize = 0;
    while k < entries.len()
        invariant
            k <= entries.len(),
            views == entries_view(entries@),
            whole == expand_entries(active@, views, 0, node_state(*old(node), *old(index)), env),
            env_matches(env, *base, *loader, Seq::empty()),
            expand_entries(active@, views, k as int, node_state(*node, *index), env) == whole,
        decreases entries.len() - k,
    {
        let ghost before = node_state(*node, *index);
        match expand_entry_exec(active, entries, k, node, index, base, loader, Ghost(env)) {
            Err(e) => {
                assert(expand_entries(active@, views, k as int, before, env) == Err::<NodeState, ErrorCode>(e.code));
                return Err(e);
            },
            Ok(()) => {
                assert(expand_entries(active@, views, k as int, before, env) == expand_entries(
                    active@,
                    views,
                    k + 1,
                    node_state(*node, *index),
                    env,
                ));
            },
        }
        k = k + 1;
    }
    Ok(())
}

/// The objects that an object stands for.
fn expand_object_exec<L: Loader>(
    active: &ActiveContext,
    property: &Option<&str>,
    entries: &Vec<(String, Json)>,
    base: &Option<IriBuf>,
    loader: &mut L,
    Ghost(env): Ghost<Env>,
) -> (r: Result<Vec<Indexed<ExpandedObject>>, Error<L::Error>>)
    requires
        env_matches(env, *base, *old(loader), Seq::empty()),
    ensures
        well_caused::<_, L>(r, env.found),
        env_matches(env, *base, *final(loader), Seq::empty()),
        match r {
            Ok(os) => expand_object(active@, slice_text(*property), entries_view(entries@), env) == Ok::<
                Seq<IndexedObjectModel>,
                ErrorCode,
            >(objects_model(os@)),
            Err(e) => expand_object(active@, slice_text(*property), entries_view(entries@), env) == Err::<
                Seq<IndexedObjectModel>,
                ErrorCode,
            >(e.code),
        },
    decreases entries, 0int, 3int,
{
    let mut os: Vec<Indexed<ExpandedObject>> = Vec::new();
    assert(objects_model(os@) =~= Seq::empty());
    if find_entry(active, entries, "@value").is_some() {
        return match expand_value_object_exec(active, property, entries) {
            Ok(os) => Ok(os),
            Err(code) => Err(Error::new(code)),
        };
    }
    if let Some(i) = find_entry(active, entries, "@list") {
        if !check_keys_among(active, entries, &list_keys()) {
            return Err(Error::new(ErrorCode::InvalidSetOrListObject));
        }
        let items = match expand_element_exec(active, property, &entries[i].1, base, loader, Ghost(env)) {
            Err(e) => {
                return Err(e);
            },
            Ok(items) => items,
        };
        let index = match read_index(entry_at(entries, find_entry(active, entries, "@index"))) {
            Err(code) => {
                return Err(Error::new(code));
            },
            Ok(i) => i,
        };
        if check_free_floating(property) {
            return Ok(os);
        }
        push_object(&mut os, Indexed { inner: Object::List(List { items }), index });
        return Ok(os);
    }
    if let Some(i) = find_entry(active, entries, "@set") {
        if !check_keys_among(active, entries, &set_keys()) {
            return Err(Error::new(ErrorCode::InvalidSetOrListObject));
        }
        return expand_element_exec(active, property, &entries[i].1, base, loader, Ghost(env));
    }
    let mut node = new_node();
    let mut index: Option<String> = None;
    match expand_entries_exec(active, entries, &mut node, &mut index, base, loader, Ghost(env)) {
        Err(e) => Err(e),
        Ok(()) => {
            if check_free_floating(property) && check_bare(&node) {
                return Ok(os);
            }
            push_object(&mut os, Indexed { inner: Object::Node(node), index });
            Ok(os)
        },
    }
}

/// The objects that `element` stands for as a value of `property`, or,
/// where there is no property, at the top of a document.
pub(crate) fn expand_element_exec<L: Loader>(
    active: &ActiveContext,
    property: &Option<&str>,
    element: &Json,
    base: &Option<IriBuf>,
    loader: &mut L,
    Ghost(env): Ghost<Env>,
) -> (r: Result<Vec<Indexed<ExpandedObject>>, Error<L::Error>>)
    requires
        env_matches(env, *base, *old(loader), Seq::empty()),
    ensures
        well_caused::<_, L>(r, env.found),
        env_matches(env, *base, *final(loader), Seq::empty()),
        match r {
            Ok(os) => expand_element(active@, slice_text(*property), element@, env) == Ok::<
                Seq<IndexedObjectModel>,
                ErrorCode,
            >(objects_model(os@)),
            Err(e) => expand_element(active@, slice_text(*property), element@, env) == Err::<
                Seq<IndexedObjectModel>,
                ErrorCode,
            >(e.code),
        },
    decreases element, 0int, 0int,
{
    let mut os: Vec<Indexed<ExpandedObject>> = Vec::new();
    assert(objects_model(os@) =~= Seq::empty());
    match element {
        Json::Null => Ok(os),
        Json::Array(items) => {
            assert(*items == element->Array_0);
            expand_items_exec(active, property, items, base, loader, Ghost(env))
        },
        Json::Object(entries) => {
            assert(*entries == element->Object_0);
            match context_within_exec(active, element, base, loader, Ghost(env)) {
                Err(e) => Err(e),
                Ok(Some(within)) => expand_object_exec(&within, property, entries, base, loader, Ghost(env)),
                Ok(None) => expand_object_exec(active, property, entries, base, loader, Ghost(env)),
            }
        },
        _ => {
            match property {
                Some(p) => {
                    if text_eq(p, "@graph") {
                        return Ok(os);
                    }
                    match literal_of_exec(element) {
                        Some(literal) => {
                            push_object(
                                &mut os,
                                Indexed { inner: expand_scalar_exec(active, p, literal), index: None },
                            );
                            Ok(os)
                        },
                        None => Ok(os),
                    }
                },
                None => Ok(os),
            }
        },
    }
}

/// The objects of a document.
fn unwrap_graph(objects: Vec<Indexed<ExpandedObject>>) -> (r: Vec<Indexed<ExpandedObject>>)
    ensures
        objects_model(r@) == unwrapped(objects_model(objects@)),
{
    let only_graph = objects.len() == 1 && objects[0].index.is_none() && match &objects[0].inner {
        Object::Node(n) => n.id.is_none() && n.types.is_none() && n.graph.is_some() && n.included.is_none()
            && n.properties.entries.len() == 0 && n.reverse_properties.is_none(),
        _ => false,
    };
    assert(objects.len() == 1 ==> objects_model(objects@)[0] == indexed_object_model(objects@[0]));
    if only_graph {
        let ghost first = objects@[0];
        let mut taken = objects;
        let o = taken.remove(0);
        assert(o == first);
        match o.inner {
            Object::Node(n) => {
                assert(object_model(first.inner) == ObjectModel::Node(node_model(n)));
                match n.graph {
                    Some(g) => g,
                    None => Vec::new(),
                }
            },
            _ => Vec::new(),
        }
    } else {
        proof {
            if objects.len() == 1 {
                let first = objects@[0];
                match first.inner {
                    Object::Node(n) => {
                        assert(object_model(first.inner) == ObjectModel::Node(node_model(n)));
                    },
                    _ => {},
                }
            }
        }
        objects
    }
}

/// Expands the document `doc` in the active context `active`.
///
/// `base` is the IRI of the document. Remote contexts are fetched with `loader`.
pub fn expand<L: Loader>(active: &ActiveContext, doc: &Json, base: &Option<IriBuf>, loader: &mut L) -> (r: Result<
    Vec<Indexed<ExpandedObject>>,
    Error<L::Error>,
>)
    ensures
        well_caused::<_, L>(r, found_by(*old(loader))),
        forall|u: Seq<char>| #[trigger] final(loader).found(u) == old(loader).found(u),
        match r {
            Ok(os) => expanded(active@, doc@, iri_text(*base), found_by(*old(loader))) == Ok::<
                Seq<IndexedObjectModel>,
                ErrorCode,
            >(objects_model(os@)),
            Err(e) => expanded(active@, doc@, iri_text(*base), found_by(*old(loader))) == Err::<
                Seq<IndexedObjectModel>,
                ErrorCode,
            >(e.code),
        },
{
    let ghost env = Env { base: iri_text(*base), found: found_by(*loader), remote: Seq::empty() };
    let ghost before = *loader;
    assert(texts(Seq::<String>::empty()) =~= Seq::<Seq<char>>::empty());
    let property: Option<&str> = None;
    let r = expand_element_exec(active, &property, doc, base, loader, Ghost(env));
    assert forall|u: Seq<char>| #[trigger] loader.found(u) == before.found(u) by {
        assert((env.found)(u) == before.found(u));
    }
    match r {
        Err(e) => Err(e),
        Ok(os) => Ok(unwrap_graph(os)),
    }
}

} // verus!
