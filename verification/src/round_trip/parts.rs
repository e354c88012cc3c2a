//! The parts of a node, written and read again, each by itself.

use vstd::prelude::*;

use crate::assoc::lemma_assoc_position_none;
use crate::compaction::model::{compact_types, compacted_array, entry_if, id_text, Options};
use crate::context::{expand_iri, ActiveContextModel};
use crate::error::ErrorCode;
use crate::expansion::model::{holds_graphs, expand_mapped, 
    context_of_term,
    context_within,
    entry_of,
    expand_element,
    expand_entries,
    expand_items,
    expand_object,
    expand_property,
    free_floating,
    index_of,
    is_bare,
    is_list_property,
    keys_among,
    list_object_keys,
    node_types_of,
    types_of,
    with_objects,
    NodeState,
};
use crate::json::JsonView;
use crate::object::model::{empty_node, IdModel, IndexedNodeModel, IndexedObjectModel, NodeModel, ObjectModel};
use crate::processing::model::Env;
use crate::round_trip::form::sound_ids;
use crate::round_trip::names::{lemma_keyword_texts, lemma_no_term, lemma_sound_id, lemma_sound_name, sound_id, sound_name};
use crate::round_trip::steps::{
    expand_one, lemma_entries_added, lemma_entry_of_added, lemma_entry_of_from, lemma_entry_of_none,
    lemma_keys_among_added, lemma_keys_among_from, lemma_keys_apart_added, lemma_no_property, lemma_nodes_of,
    objects_of_nodes, reverse_step,
};
use crate::round_trip::values::text_json;

verus! {

/// The node in the making at the start: nothing is known of it.
pub open spec fn start() -> NodeState {
    NodeState { node: empty_node(), index: None }
}

/// The identifiers as the texts that they are written as.
pub open spec fn type_texts(ts: Seq<IdModel>) -> Seq<JsonView> {
    Seq::new(ts.len(), |i: int| JsonView::Text(id_text(ts[i])))
}

/// Sound types are written as their texts, and read back from them.
pub proof fn lemma_types(base: Option<Seq<char>>, ts: Seq<IdModel>, k: int)
    requires
        sound_ids(ts),
        0 <= k <= ts.len(),
    ensures
        compact_types(ActiveContextModel::empty(base), ts, k) == Ok::<_, ErrorCode>(type_texts(ts).subrange(0, k)),
        types_of(ActiveContextModel::empty(base), type_texts(ts), k) == Some(ts.subrange(0, k)),
    decreases k,
{
    let active = ActiveContextModel::empty(base);
    if k > 0 {
        lemma_types(base, ts, k - 1);
        lemma_sound_id(base, ts[k - 1], true);
        lemma_sound_name(base, id_text(ts[k - 1]), true, true);
        assert(type_texts(ts).subrange(0, k - 1).push(JsonView::Text(id_text(ts[k - 1]))) =~= type_texts(ts).subrange(
            0,
            k,
        ));
        assert(type_texts(ts)[k - 1] == JsonView::Text(id_text(ts[k - 1])));
        assert(ts.subrange(0, k - 1).push(ts[k - 1]) =~= ts.subrange(0, k));
    } else {
        assert(type_texts(ts).subrange(0, 0) =~= Seq::<JsonView>::empty());
        assert(ts.subrange(0, 0) =~= Seq::<IdModel>::empty());
    }
}

/// The types of a node as they are written.
pub open spec fn types_json(types: Option<Seq<IdModel>>, opts: Options) -> Option<JsonView> {
    match types {
        Some(ts) => Some(compacted_array(type_texts(ts), opts)),
        None => None,
    }
}

/// The first entries of a node as they are written: its identifier, its types and its index.
pub open spec fn head_entries(
    id: Option<IdModel>,
    types: Option<Seq<IdModel>>,
    index: Option<Seq<char>>,
    opts: Options,
) -> Seq<(Seq<char>, JsonView)> {
    entry_if(
        "@id"@,
        match id {
            Some(i) => Some(JsonView::Text(id_text(i))),
            None => None,
        },
    ) + entry_if("@type"@, types_json(types, opts)) + entry_if("@index"@, text_json(index))
}

/// Whether `key` is one of the first keys of a node as it is written: `@id`, `@type` or `@index`.
pub open spec fn head_key(key: Seq<char>) -> bool {
    key == "@id"@ || key == "@type"@ || key == "@index"@
}

/// The node in the making of which the identifier, the types and the index are known.
pub open spec fn head_state(id: Option<IdModel>, types: Option<Seq<IdModel>>, index: Option<Seq<char>>) -> NodeState {
    NodeState { node: NodeModel { id, types, ..empty_node() }, index }
}

/// The first entries of a node, read again, give its identifier, its types and its index.
pub proof fn lemma_head(
    base: Option<Seq<char>>,
    id: Option<IdModel>,
    types: Option<Seq<IdModel>>,
    index: Option<Seq<char>>,
    opts: Options,
    env: Env,
)
    requires
        id is Some ==> sound_id(id->0),
        types is Some ==> sound_ids(types->0),
    ensures
        expand_entries(ActiveContextModel::empty(base), head_entries(id, types, index, opts), 0, start(), env) == Ok::<
            _,
            ErrorCode,
        >(head_state(id, types, index)),
        forall|j: int|
            0 <= j < head_entries(id, types, index, opts).len() ==> head_key(
                (#[trigger] head_entries(id, types, index, opts)[j]).0,
            ),
{
    let active = ActiveContextModel::empty(base);
    lemma_keyword_texts();
    let none: Seq<(Seq<char>, JsonView)> = Seq::empty();
    let ij = match id {
        Some(i) => Some(JsonView::Text(id_text(i))),
        None => None,
    };
    let e1 = none + entry_if("@id"@, ij);
    let e2 = e1 + entry_if("@type"@, types_json(types, opts));
    let e3 = e2 + entry_if("@index"@, text_json(index));
    assert(e1 =~= entry_if("@id"@, ij));
    assert(e3 == head_entries(id, types, index, opts));
    assert(expand_entries(active, none, 0, start(), env) == Ok::<_, ErrorCode>(start()));
    lemma_entries_added(active, none, "@id"@, ij, start(), env);
    let s1 = NodeState { node: NodeModel { id, ..empty_node() }, index: None };
    if id is Some {
        lemma_sound_id(base, id->0, false);
        assert(expand_one(active, "@id"@, ij->0, start(), env) == Ok::<_, ErrorCode>(s1));
    }
    assert(expand_entries(active, e1, 0, start(), env) == Ok::<_, ErrorCode>(s1));
    lemma_entries_added(active, e1, "@type"@, types_json(types, opts), start(), env);
    let s2 = NodeState { node: NodeModel { id, types, ..empty_node() }, index: None };
    if types is Some {
        let ts = types->0;
        lemma_types(base, ts, ts.len() as int);
        assert(ts.subrange(0, ts.len() as int) =~= ts);
        let tj = types_json(types, opts)->0;
        if ts.len() == 1 && opts.compact_arrays {
            lemma_sound_id(base, ts[0], true);
            assert(tj == JsonView::Text(id_text(ts[0])));
            assert(seq![ts[0]] =~= ts);
        } else {
            assert(tj == JsonView::Array(type_texts(ts)));
        }
        assert(node_types_of(active, tj) == Ok::<_, ErrorCode>(ts));
        assert(expand_one(active, "@type"@, tj, s1, env) == Ok::<_, ErrorCode>(s2));
    }
    assert(expand_entries(active, e2, 0, start(), env) == Ok::<_, ErrorCode>(s2));
    lemma_entries_added(active, e2, "@index"@, text_json(index), start(), env);
    if index is Some {
        assert(expand_one(active, "@index"@, text_json(index)->0, s2, env) == Ok::<_, ErrorCode>(
            head_state(id, types, index),
        ));
    }
    assert forall|j: int| 0 <= j < e3.len() implies head_key((#[trigger] e3[j]).0) by {
        if j < e1.len() {
            assert(e3[j] == e1[j]);
            assert(e1[j].0 == "@id"@);
        } else if j < e2.len() {
            assert(e3[j] == e2[j]);
            assert(e2[j].0 == "@type"@);
        } else {
            assert(e3[j].0 == "@index"@);
        }
    }
}

/// An entry of a property, read again, adds the property with its objects to a node that has it not.
pub proof fn lemma_property_entry(
    base: Option<Seq<char>>,
    id: IdModel,
    value: JsonView,
    objects: Seq<IndexedObjectModel>,
    st: NodeState,
    env: Env,
)
    requires
        sound_id(id),
        expand_element(ActiveContextModel::empty(base), Some(id_text(id)), value, env) == Ok::<_, ErrorCode>(objects),
        objects.len() > 0,
        forall|j: int| 0 <= j < st.node.properties.len() ==> (#[trigger] st.node.properties[j]).0 != id,
    ensures
        expand_one(ActiveContextModel::empty(base), id_text(id), value, st, env) == Ok::<_, ErrorCode>(
            NodeState { node: NodeModel { properties: st.node.properties.push((id, objects)), ..st.node }, ..st },
        ),
{
    let active = ActiveContextModel::empty(base);
    let iri = id_text(id);
    lemma_sound_id(base, id, true);
    lemma_sound_name(base, iri, false, true);
    lemma_no_term(base, iri);
    lemma_no_property(st.node.properties, id, 0);
    assert(context_of_term(active, active.get(iri), env) == Ok::<_, ErrorCode>(active));
    assert(!is_list_property(active, Some(iri)));
    assert(expand_mapped(active, active, iri, value, env) == expand_element(active, Some(iri), value, env));
    assert(!holds_graphs(active.get(iri)));
    assert(with_objects(st.node.properties, id, objects) == st.node.properties.push((id, objects)));
    assert(expand_property(active, iri, iri, value, st, false, env) == Ok::<_, ErrorCode>(
        NodeState { node: NodeModel { properties: st.node.properties.push((id, objects)), ..st.node }, ..st },
    ));
}

/// The reverse properties of a node in the making, where none counts as empty.
pub open spec fn reverse_of(st: NodeState) -> Seq<(IdModel, Seq<IndexedNodeModel>)> {
    match st.node.reverse_properties {
        Some(r) => r,
        None => Seq::empty(),
    }
}

/// An entry of a reverse property, read again, adds the property with its nodes to a node that has it not.
pub proof fn lemma_reverse_entry(
    base: Option<Seq<char>>,
    id: IdModel,
    js: Seq<JsonView>,
    ns: Seq<IndexedNodeModel>,
    st: NodeState,
    env: Env,
)
    requires
        sound_id(id),
        expand_items(ActiveContextModel::empty(base), Some(id_text(id)), js, js.len() as int, env) == Ok::<_, ErrorCode>(
            objects_of_nodes(ns),
        ),
        ns.len() > 0,
        forall|j: int| 0 <= j < reverse_of(st).len() ==> (#[trigger] reverse_of(st)[j]).0 != id,
    ensures
        reverse_step(ActiveContextModel::empty(base), id_text(id), JsonView::Array(js), st, env) == Ok::<_, ErrorCode>(
            NodeState {
                node: NodeModel { reverse_properties: Some(reverse_of(st).push((id, ns))), ..st.node },
                ..st
            },
        ),
{
    let active = ActiveContextModel::empty(base);
    let iri = id_text(id);
    lemma_sound_id(base, id, true);
    lemma_sound_name(base, iri, false, true);
    lemma_no_term(base, iri);
    lemma_no_property(reverse_of(st), id, 0);
    lemma_nodes_of(ns, ns.len() as int);
    assert(ns.subrange(0, ns.len() as int) =~= ns);
    assert(context_of_term(active, active.get(iri), env) == Ok::<_, ErrorCode>(active));
    assert(!is_list_property(active, Some(iri)));
    assert(expand_element(active, Some(iri), JsonView::Array(js), env) == Ok::<_, ErrorCode>(objects_of_nodes(ns)));
    assert(expand_mapped(active, active, iri, JsonView::Array(js), env) == expand_element(
        active,
        Some(iri),
        JsonView::Array(js),
        env,
    ));
    assert(with_objects(reverse_of(st), id, ns) == reverse_of(st).push((id, ns)));
    assert(expand_property(active, iri, iri, JsonView::Array(js), st, true, env) == Ok::<_, ErrorCode>(
        NodeState { node: NodeModel { reverse_properties: Some(reverse_of(st).push((id, ns))), ..st.node }, ..st },
    ));
}

/// A list written as an object with `@list`, and read again as a value of a property
/// that is not `@graph`, is the list.
pub proof fn lemma_list_object(
    base: Option<Seq<char>>,
    key: Seq<char>,
    items: Seq<IndexedObjectModel>,
    js: Seq<JsonView>,
    index: Option<Seq<char>>,
    env: Env,
)
    requires
        key != "@graph"@,
        expand_items(ActiveContextModel::empty(base), Some(key), js, js.len() as int, env) == Ok::<_, ErrorCode>(items),
    ensures
        expand_element(
            ActiveContextModel::empty(base),
            Some(key),
            JsonView::Object(seq![("@list"@, JsonView::Array(js))] + entry_if("@index"@, text_json(index))),
            env,
        ) == Ok::<_, ErrorCode>(seq![IndexedObjectModel { inner: ObjectModel::List(items), index }]),
{
    let active = ActiveContextModel::empty(base);
    lemma_keyword_texts();
    let none: Seq<(Seq<char>, JsonView)> = Seq::empty();
    let first = ("@list"@, JsonView::Array(js));
    let e0 = seq![first];
    let es = e0 + entry_if("@index"@, text_json(index));
    let allowed = list_object_keys();
    assert(allowed[0] == "@list"@ && allowed[1] == "@index"@);
    assert(e0 =~= none.push(first));
    lemma_entry_of_from(active, none, first, "@value"@, 0);
    lemma_entry_of_from(active, none, first, "@list"@, 0);
    lemma_entry_of_from(active, none, first, "@index"@, 0);
    lemma_keys_among_from(active, none, first, allowed, 0);
    lemma_entry_of_added(active, e0, "@index"@, text_json(index), "@value"@);
    lemma_entry_of_added(active, e0, "@index"@, text_json(index), "@list"@);
    lemma_entry_of_added(active, e0, "@index"@, text_json(index), "@index"@);
    lemma_keys_among_added(active, e0, "@index"@, text_json(index), allowed);
    assert(e0[0].0 != "@context"@);
    lemma_keys_apart_added(e0, "@index"@, text_json(index), "@context"@);
    lemma_assoc_position_none(es, "@context"@);
    assert(context_within(active, JsonView::Object(es), env) == Ok::<_, ErrorCode>(active));
    assert(entry_of(active, es, "@value"@, 0) is None);
    assert(entry_of(active, es, "@list"@, 0) == Some(JsonView::Array(js)));
    assert(keys_among(active, es, allowed, 0));
    assert(expand_element(active, Some(key), JsonView::Array(js), env) == Ok::<_, ErrorCode>(items));
    assert(index_of(entry_of(active, es, "@index"@, 0)) == Ok::<_, ErrorCode>(index));
    assert(expand_object(active, Some(key), es, env) == Ok::<_, ErrorCode>(
        seq![IndexedObjectModel { inner: ObjectModel::List(items), index }],
    ));
}

/// Whether `key` can be a key of a node as it is written: one of the
/// keywords of a node, or the text of a sound identifier.
pub open spec fn node_key(key: Seq<char>) -> bool {
    key == "@id"@ || key == "@type"@ || key == "@index"@ || key == "@reverse"@ || key == "@included"@ || key
        == "@graph"@ || sound_name(key)
}

/// Whether all the keys of the entries can be keys of a node.
pub open spec fn node_keys(es: Seq<(Seq<char>, JsonView)>) -> bool {
    forall|j: int| 0 <= j < es.len() ==> node_key((#[trigger] es[j]).0)
}

/// An object whose keys are keys of a node is read as the node that its entries make.
pub proof fn lemma_node_entries(
    base: Option<Seq<char>>,
    property: Option<Seq<char>>,
    es: Seq<(Seq<char>, JsonView)>,
    st: NodeState,
    env: Env,
)
    requires
        node_keys(es),
        expand_entries(ActiveContextModel::empty(base), es, 0, start(), env) == Ok::<_, ErrorCode>(st),
        free_floating(property) ==> !is_bare(st.node),
    ensures
        expand_element(ActiveContextModel::empty(base), property, JsonView::Object(es), env) == Ok::<_, ErrorCode>(
            seq![IndexedObjectModel { inner: ObjectModel::Node(st.node), index: st.index }],
        ),
{
    let active = ActiveContextModel::empty(base);
    lemma_keyword_texts();
    assert forall|j: int| 0 <= j < es.len() implies {
        &&& (#[trigger] es[j]).0 != "@context"@
        &&& expand_iri(active, es[j].0, false, true) != Some("@value"@)
        &&& expand_iri(active, es[j].0, false, true) != Some("@list"@)
        &&& expand_iri(active, es[j].0, false, true) != Some("@set"@)
    } by {
        assert(node_key(es[j].0));
        if sound_name(es[j].0) {
            lemma_sound_name(base, es[j].0, false, true);
        }
    }
    lemma_assoc_position_none(es, "@context"@);
    lemma_entry_of_none(active, es, "@value"@, 0);
    lemma_entry_of_none(active, es, "@list"@, 0);
    lemma_entry_of_none(active, es, "@set"@, 0);
    assert(context_within(active, JsonView::Object(es), env) == Ok::<_, ErrorCode>(active));
    assert(expand_object(active, property, es, env) == Ok::<_, ErrorCode>(
        seq![IndexedObjectModel { inner: ObjectModel::Node(st.node), index: st.index }],
    ));
}

} // verus!
