//! Objects written in the context without terms, and read again.

use vstd::prelude::*;

use crate::assoc::{lemma_assoc_position_is, lemma_assoc_position_none};
use crate::compaction::model::{best_map_term, index_key, language_key, mapped_step, 
    as_array,
    best_term,
    compact_list_items,
    compact_node,
    compact_nodes,
    compact_object,
    compact_objects,
    compact_properties,
    compact_property,
    compact_reverse,
    id_text,
    keyword_alias,
    literal_json,
    with_value,
    Options,
};
use crate::context::ActiveContextModel;
use crate::syntax::context::ContainerKind;
use crate::error::ErrorCode;
use crate::expansion::model::{
    expand_element, expand_entries, expand_items, expand_reverse, expand_scalar, free_floating, is_bare, literal_of,
    NodeState,
};
use crate::json::JsonView;
use crate::object::model::{IdModel, IndexedNodeModel, IndexedObjectModel, NodeModel, ObjectModel};
use crate::object::value::LiteralModel;
use crate::processing::model::Env;
use crate::round_trip::form::{
    all_stand_free, apart, sound_node, sound_nodes, sound_object, sound_objects, sound_properties, sound_reverse,
};
use crate::round_trip::names::{lemma_keyword_texts, lemma_sound_id, lemma_sound_name, sound_id};
use crate::round_trip::nodes::{lemma_node_assembled, parts_read, parts_written, properties_state};
use crate::round_trip::parts::{
    head_entries,
    head_key,
    head_state,
    lemma_head,
    lemma_list_object,
    lemma_property_entry,
    lemma_reverse_entry,
    node_key,
    node_keys,
    reverse_of,
    start,
};
use crate::round_trip::steps::{lemma_entries_from, lemma_items_pushed, lemma_reverse_from, objects_of_nodes};
use crate::round_trip::values::lemma_value;
use crate::text::is_keyword;

verus! {

/// A sound object, written in the context without terms as a value of a
/// property that is not `@graph` and read again, is the object.
pub proof fn lemma_object(base: Option<Seq<char>>, key: Seq<char>, o: IndexedObjectModel, opts: Options, env: Env)
    requires
        sound_object(o),
        key != "@graph"@,
    ensures
        compact_object(ActiveContextModel::empty(base), key, o, opts) is Ok,
        !(compact_object(ActiveContextModel::empty(base), key, o, opts)->Ok_0 is Array),
        expand_element(
            ActiveContextModel::empty(base),
            Some(key),
            compact_object(ActiveContextModel::empty(base), key, o, opts)->Ok_0,
            env,
        ) == Ok::<_, ErrorCode>(seq![o]),
    decreases o, 1int,
{
    let active = ActiveContextModel::empty(base);
    match o.inner {
        ObjectModel::Value(v) => {
            if o.index is None && expand_scalar(active, key, v.literal) == o.inner {
                assert(literal_of(literal_json(v.literal)) == Some(v.literal));
            } else {
                lemma_value(base, key, v, o.index, env);
            }
        },
        ObjectModel::Node(n) => {
            if o.index is None && is_bare(n) && n.id is Some && expand_scalar(
                active,
                key,
                LiteralModel::Text(id_text(n.id->0)),
            ) == o.inner {
            } else {
                lemma_node(base, n, o.index, Some(key), opts, env);
            }
        },
        ObjectModel::List(items) => {
            lemma_list_items(base, key, items, items.len() as int, opts, env);
            let js = compact_list_items(active, key, items, items.len() as int, opts)->Ok_0;
            assert(items.subrange(0, items.len() as int) =~= items);
            lemma_list_object(base, key, items, js, o.index, env);
            assert(keyword_alias(active, "@list"@) == "@list"@);
            assert(keyword_alias(active, "@index"@) == "@index"@);
        },
    }
}

/// The first `k` items of a list of sound objects, written and read again, are those items.
pub proof fn lemma_list_items(
    base: Option<Seq<char>>,
    key: Seq<char>,
    items: Seq<IndexedObjectModel>,
    k: int,
    opts: Options,
    env: Env,
)
    requires
        sound_objects(items),
        key != "@graph"@,
        0 <= k <= items.len(),
    ensures
        compact_list_items(ActiveContextModel::empty(base), key, items, k, opts) is Ok,
        compact_list_items(ActiveContextModel::empty(base), key, items, k, opts)->Ok_0.len() == k,
        expand_items(
            ActiveContextModel::empty(base),
            Some(key),
            compact_list_items(ActiveContextModel::empty(base), key, items, k, opts)->Ok_0,
            k,
            env,
        ) == Ok::<_, ErrorCode>(items.subrange(0, k)),
    decreases items, k,
{
    let active = ActiveContextModel::empty(base);
    if k > 0 {
        lemma_list_items(base, key, items, k - 1, opts, env);
        lemma_object(base, key, items[k - 1], opts, env);
        let before = compact_list_items(active, key, items, k - 1, opts)->Ok_0;
        let j = compact_object(active, key, items[k - 1], opts)->Ok_0;
        lemma_items_pushed(active, Some(key), before, j, env);
        assert(items.subrange(0, k - 1) + seq![items[k - 1]] =~= items.subrange(0, k));
    } else {
        assert(items.subrange(0, 0) =~= Seq::<IndexedObjectModel>::empty());
    }
}

/// The first `k` objects of a property, written into entries that have
/// not its key, make one more entry; read again, its value gives those objects.
pub proof fn lemma_property(
    base: Option<Seq<char>>,
    id: IdModel,
    objects: Seq<IndexedObjectModel>,
    k: int,
    before: Seq<(Seq<char>, JsonView)>,
    opts: Options,
    env: Env,
)
    requires
        sound_id(id),
        sound_objects(objects),
        1 <= k <= objects.len(),
        forall|j: int| 0 <= j < before.len() ==> (#[trigger] before[j]).0 != id_text(id),
    ensures
        compact_property(ActiveContextModel::empty(base), id_text(id), objects, k, before, opts) is Ok,
        ({
            let es = compact_property(ActiveContextModel::empty(base), id_text(id), objects, k, before, opts)->Ok_0;
            &&& es.len() == before.len() + 1
            &&& es == before.push((id_text(id), es.last().1))
            &&& expand_element(ActiveContextModel::empty(base), Some(id_text(id)), es.last().1, env) == Ok::<
                _,
                ErrorCode,
            >(objects.subrange(0, k))
        }),
    decreases objects, k,
{
    let active = ActiveContextModel::empty(base);
    let iri = id_text(id);
    lemma_sound_id(base, id, true);
    lemma_sound_name(base, iri, false, true);
    lemma_keyword_texts();
    assert(best_term(active.terms, iri, true, false, 0) is None);
    assert(best_map_term(active.terms, iri, ContainerKind::Language, 0) is None);
    assert(best_map_term(active.terms, iri, ContainerKind::Index, 0) is None);
    assert(language_key(active, iri, objects[k - 1]) is None);
    assert(index_key(active, iri, objects[k - 1]) is None);
    assert(mapped_step(active, iri, objects[k - 1], before, opts) is None);
    lemma_object(base, iri, objects[k - 1], opts, env);
    let j = compact_object(active, iri, objects[k - 1], opts)->Ok_0;
    let none: Seq<JsonView> = Seq::empty();
    assert(expand_items(active, Some(iri), none, 0, env) == Ok::<_, ErrorCode>(Seq::<IndexedObjectModel>::empty()));
    if k == 1 {
        assert(compact_property(active, iri, objects, 0, before, opts) == Ok::<_, ErrorCode>(before));
        lemma_assoc_position_none(before, iri);
        let es = with_value(before, iri, j, as_array(active, iri, opts));
        assert(compact_property(active, iri, objects, 1, before, opts) == Ok::<_, ErrorCode>(es));
        assert(es == before.push((iri, es.last().1)));
        if as_array(active, iri, opts) {
            lemma_items_pushed(active, Some(iri), none, j, env);
            assert(none.push(j) =~= seq![j]);
        }
        assert(Seq::<IndexedObjectModel>::empty() + seq![objects[0]] =~= objects.subrange(0, 1));
    } else {
        lemma_property(base, id, objects, k - 1, before, opts, env);
        let prev = compact_property(active, iri, objects, k - 1, before, opts)->Ok_0;
        let last = before.len() as int;
        assert(prev[last].0 == iri);
        assert forall|i: int| 0 <= i < last implies (#[trigger] prev[i]).0 != iri by {
            assert(prev[i] == before[i]);
        }
        lemma_assoc_position_is(prev, iri, last);
        let es = with_value(prev, iri, j, as_array(active, iri, opts));
        assert(mapped_step(active, iri, objects[k - 1], prev, opts) is None);
        assert(compact_property(active, iri, objects, k, before, opts) == Ok::<_, ErrorCode>(es));
        assert(es =~= before.push((iri, es.last().1)));
        match prev[last].1 {
            JsonView::Array(items) => {
                lemma_items_pushed(active, Some(iri), items, j, env);
            },
            other => {
                lemma_items_pushed(active, Some(iri), none, other, env);
                lemma_items_pushed(active, Some(iri), seq![other], j, env);
                assert(none.push(other) =~= seq![other]);
                assert(seq![other].push(j) =~= seq![other, j]);
                assert(Seq::<IndexedObjectModel>::empty() + objects.subrange(0, k - 1) =~= objects.subrange(0, k - 1));
            },
        }
        assert(objects.subrange(0, k - 1) + seq![objects[k - 1]] =~= objects.subrange(0, k));
    }
}

/// The first `k` properties of a node, written after its first entries, make
/// one entry each; read again, the entries give the node with those properties.
pub proof fn lemma_properties(
    base: Option<Seq<char>>,
    ps: Seq<(IdModel, Seq<IndexedObjectModel>)>,
    k: int,
    head: Seq<(Seq<char>, JsonView)>,
    st: NodeState,
    opts: Options,
    env: Env,
)
    requires
        apart(ps),
        sound_properties(ps),
        0 <= k <= ps.len(),
        forall|j: int| 0 <= j < head.len() ==> head_key((#[trigger] head[j]).0),
        expand_entries(ActiveContextModel::empty(base), head, 0, start(), env) == Ok::<_, ErrorCode>(st),
        st.node.properties.len() == 0,
    ensures
        compact_properties(ActiveContextModel::empty(base), ps, k, head, opts) is Ok,
        ({
            let es = compact_properties(ActiveContextModel::empty(base), ps, k, head, opts)->Ok_0;
            &&& es.len() == head.len() + k
            &&& forall|j: int| 0 <= j < head.len() ==> (#[trigger] es[j]) == head[j]
            &&& forall|i: int| 0 <= i < k ==> (#[trigger] es[head.len() + i]).0 == id_text(ps[i].0)
            &&& expand_entries(ActiveContextModel::empty(base), es, 0, start(), env) == Ok::<_, ErrorCode>(
                NodeState { node: NodeModel { properties: ps.subrange(0, k), ..st.node }, ..st },
            )
        }),
    decreases ps, k,
{
    let active = ActiveContextModel::empty(base);
    if k > 0 {
        lemma_properties(base, ps, k - 1, head, st, opts, env);
        let prev = compact_properties(active, ps, k - 1, head, opts)->Ok_0;
        let id = ps[k - 1].0;
        let iri = id_text(id);
        let objects = ps[k - 1].1;
        lemma_sound_id(base, id, true);
        lemma_sound_name(base, iri, false, true);
        assert(sound_objects(objects));
        assert forall|j: int| 0 <= j < prev.len() implies (#[trigger] prev[j]).0 != iri by {
            if j < head.len() {
                assert(prev[j] == head[j]);
                assert(head_key(head[j].0));
                assert(is_keyword(head[j].0));
            } else {
                let i = j - head.len();
                assert(prev[head.len() + i].0 == id_text(ps[i].0));
            }
        }
        lemma_property(base, id, objects, objects.len() as int, prev, opts, env);
        let es = compact_property(active, iri, objects, objects.len() as int, prev, opts)->Ok_0;
        assert(compact_properties(active, ps, k, head, opts) == Ok::<_, ErrorCode>(es));
        let value = es.last().1;
        assert(objects.subrange(0, objects.len() as int) =~= objects);
        lemma_entries_from(active, prev, (iri, value), 0, start(), env);
        let before = NodeState { node: NodeModel { properties: ps.subrange(0, k - 1), ..st.node }, ..st };
        assert forall|j: int| 0 <= j < before.node.properties.len() implies (#[trigger] before.node.properties[j]).0
            != id by {
            assert(before.node.properties[j] == ps[j]);
            assert(id_text(ps[j].0) != id_text(ps[k - 1].0));
        }
        lemma_property_entry(base, id, value, objects, before, env);
        assert(ps.subrange(0, k - 1).push((id, objects)) =~= ps.subrange(0, k));
        assert forall|j: int| 0 <= j < head.len() implies (#[trigger] es[j]) == head[j] by {
            assert(es[j] == prev[j]);
        }
        assert forall|i: int| 0 <= i < k implies (#[trigger] es[head.len() + i]).0 == id_text(ps[i].0) by {
            if i < k - 1 {
                assert(es[head.len() + i] == prev[head.len() + i]);
            }
        }
    } else {
        assert(ps.subrange(0, 0) =~= st.node.properties);
    }
}

/// The first `k` nodes, written and read again as values of a property under
/// which nothing stands free, are those nodes.
pub proof fn lemma_nodes(
    base: Option<Seq<char>>,
    ns: Seq<IndexedNodeModel>,
    k: int,
    property: Option<Seq<char>>,
    opts: Options,
    env: Env,
)
    requires
        sound_nodes(ns),
        !free_floating(property),
        0 <= k <= ns.len(),
    ensures
        compact_nodes(ActiveContextModel::empty(base), ns, k, opts) is Ok,
        compact_nodes(ActiveContextModel::empty(base), ns, k, opts)->Ok_0.len() == k,
        expand_items(
            ActiveContextModel::empty(base),
            property,
            compact_nodes(ActiveContextModel::empty(base), ns, k, opts)->Ok_0,
            k,
            env,
        ) == Ok::<_, ErrorCode>(objects_of_nodes(ns).subrange(0, k)),
    decreases ns, k,
{
    let active = ActiveContextModel::empty(base);
    if k > 0 {
        lemma_nodes(base, ns, k - 1, property, opts, env);
        lemma_node(base, ns[k - 1].inner, ns[k - 1].index, property, opts, env);
        let before = compact_nodes(active, ns, k - 1, opts)->Ok_0;
        let j = compact_node(active, ns[k - 1].inner, ns[k - 1].index, opts)->Ok_0;
        lemma_items_pushed(active, property, before, j, env);
        assert(objects_of_nodes(ns).subrange(0, k - 1) + seq![
            IndexedObjectModel { inner: ObjectModel::Node(ns[k - 1].inner), index: ns[k - 1].index },
        ] =~= objects_of_nodes(ns).subrange(0, k));
    } else {
        assert(objects_of_nodes(ns).subrange(0, 0) =~= Seq::<IndexedObjectModel>::empty());
    }
}

/// The first `k` objects that can stand free, written and read again, are those objects.
pub proof fn lemma_free(
    base: Option<Seq<char>>,
    g: Seq<IndexedObjectModel>,
    k: int,
    property: Option<Seq<char>>,
    opts: Options,
    env: Env,
)
    requires
        all_stand_free(g),
        0 <= k <= g.len(),
    ensures
        compact_objects(ActiveContextModel::empty(base), g, k, opts) is Ok,
        compact_objects(ActiveContextModel::empty(base), g, k, opts)->Ok_0.len() == k,
        forall|i: int| 0 <= i < k ==> (#[trigger] compact_objects(ActiveContextModel::empty(base), g, k, opts)->Ok_0[i]) is Object,
        expand_items(
            ActiveContextModel::empty(base),
            property,
            compact_objects(ActiveContextModel::empty(base), g, k, opts)->Ok_0,
            k,
            env,
        ) == Ok::<_, ErrorCode>(g.subrange(0, k)),
    decreases g, k,
{
    let active = ActiveContextModel::empty(base);
    if k > 0 {
        lemma_free(base, g, k - 1, property, opts, env);
        let o = g[k - 1];
        assert(crate::round_trip::form::stands_free(o));
        let n = o.inner->Node_0;
        lemma_node(base, n, o.index, property, opts, env);
        let before = compact_objects(active, g, k - 1, opts)->Ok_0;
        let j = compact_node(active, n, o.index, opts)->Ok_0;
        assert(compact_object(active, "@graph"@, o, opts) == Ok::<_, ErrorCode>(j));
        lemma_items_pushed(active, property, before, j, env);
        assert(g.subrange(0, k - 1) + seq![o] =~= g.subrange(0, k));
        let js = before.push(j);
        assert forall|i: int| 0 <= i < k implies (#[trigger] js[i]) is Object by {
            if i < k - 1 {
                assert(js[i] == before[i]);
            }
        }
    } else {
        assert(g.subrange(0, 0) =~= Seq::<IndexedObjectModel>::empty());
    }
}

/// The first `k` reverse properties of a node, written as the entries of
/// an `@reverse` entry and read again, give those reverse properties.
pub proof fn lemma_reverse(
    base: Option<Seq<char>>,
    r: Seq<(IdModel, Seq<IndexedNodeModel>)>,
    k: int,
    es: Seq<(Seq<char>, JsonView)>,
    st: NodeState,
    opts: Options,
    env: Env,
)
    requires
        apart(r),
        sound_reverse(r),
        0 <= k <= r.len(),
        st.node.reverse_properties is None,
    ensures
        compact_reverse(ActiveContextModel::empty(base), r, k, es, Seq::empty(), opts) is Ok,
        ({
            let pair = compact_reverse(ActiveContextModel::empty(base), r, k, es, Seq::empty(), opts)->Ok_0;
            &&& pair.0 == es
            &&& pair.1.len() == k
            &&& expand_reverse(ActiveContextModel::empty(base), pair.1, 0, st, env) == Ok::<_, ErrorCode>(
                if k == 0 {
                    st
                } else {
                    NodeState { node: NodeModel { reverse_properties: Some(r.subrange(0, k)), ..st.node }, ..st }
                },
            )
        }),
    decreases r, k,
{
    let active = ActiveContextModel::empty(base);
    if k > 0 {
        lemma_reverse(base, r, k - 1, es, st, opts, env);
        let prev = compact_reverse(active, r, k - 1, es, Seq::empty(), opts)->Ok_0;
        let id = r[k - 1].0;
        let iri = id_text(id);
        let ns = r[k - 1].1;
        lemma_sound_id(base, id, true);
        lemma_sound_name(base, iri, false, true);
        lemma_keyword_texts();
        assert(sound_nodes(ns));
        lemma_nodes(base, ns, ns.len() as int, Some(iri), opts, env);
        let js = compact_nodes(active, ns, ns.len() as int, opts)->Ok_0;
        assert(objects_of_nodes(ns).subrange(0, ns.len() as int) =~= objects_of_nodes(ns));
        assert(best_term(active.terms, iri, false, true, 0) is None);
        let inside = prev.1.push((iri, JsonView::Array(js)));
        assert(compact_reverse(active, r, k, es, Seq::empty(), opts) == Ok::<_, ErrorCode>((es, inside)));
        lemma_reverse_from(active, prev.1, (iri, JsonView::Array(js)), 0, st, env);
        let before = if k == 1 {
            st
        } else {
            NodeState { node: NodeModel { reverse_properties: Some(r.subrange(0, k - 1)), ..st.node }, ..st }
        };
        assert(reverse_of(before) =~= r.subrange(0, k - 1));
        assert forall|j: int| 0 <= j < reverse_of(before).len() implies (#[trigger] reverse_of(before)[j]).0 != id by {
            assert(reverse_of(before)[j] == r[j]);
            assert(id_text(r[j].0) != id_text(r[k - 1].0));
        }
        lemma_reverse_entry(base, id, js, ns, before, env);
        assert(r.subrange(0, k - 1).push((id, ns)) =~= r.subrange(0, k));
    } else {
        let none: Seq<(Seq<char>, JsonView)> = Seq::empty();
        assert(expand_reverse(active, none, 0, st, env) == Ok::<_, ErrorCode>(st));
    }
}

/// A sound node, written in the context without terms and read again, is
/// the node: under any property, or under none where it has more than an identifier.
pub proof fn lemma_node(
    base: Option<Seq<char>>,
    n: NodeModel,
    index: Option<Seq<char>>,
    property: Option<Seq<char>>,
    opts: Options,
    env: Env,
)
    requires
        sound_node(n),
        free_floating(property) ==> !is_bare(n),
    ensures
        compact_node(ActiveContextModel::empty(base), n, index, opts) is Ok,
        compact_node(ActiveContextModel::empty(base), n, index, opts)->Ok_0 is Object,
        expand_element(
            ActiveContextModel::empty(base),
            property,
            compact_node(ActiveContextModel::empty(base), n, index, opts)->Ok_0,
            env,
        ) == Ok::<_, ErrorCode>(seq![IndexedObjectModel { inner: ObjectModel::Node(n), index }]),
    decreases n, 0int,
{
    let active = ActiveContextModel::empty(base);
    let head = head_entries(n.id, n.types, index, opts);
    let st_h = head_state(n.id, n.types, index);
    lemma_head(base, n.id, n.types, index, opts, env);
    let ps = n.properties;
    assert(sound_properties(ps));
    lemma_properties(base, ps, ps.len() as int, head, st_h, opts, env);
    let es_p = compact_properties(active, ps, ps.len() as int, head, opts)->Ok_0;
    assert(ps.subrange(0, ps.len() as int) =~= ps);
    assert(node_keys(es_p)) by {
        assert forall|j: int| 0 <= j < es_p.len() implies node_key((#[trigger] es_p[j]).0) by {
            if j < head.len() {
                assert(es_p[j] == head[j]);
                assert(head_key(head[j].0));
            } else {
                let i = j - head.len();
                assert(es_p[head.len() + i].0 == id_text(ps[i].0));
                lemma_sound_id(base, ps[i].0, true);
            }
        }
    }
    let st_p = properties_state(n, index);
    assert(st_p == NodeState { node: NodeModel { properties: ps, ..st_h.node }, ..st_h });
    match n.reverse_properties {
        Some(r) => {
            assert(sound_reverse(r));
            lemma_reverse(base, r, r.len() as int, es_p, st_p, opts, env);
            assert(r.subrange(0, r.len() as int) =~= r);
        },
        None => {},
    }
    match n.included {
        Some(ns) => {
            assert(sound_nodes(ns));
            lemma_keyword_texts();
            lemma_nodes(base, ns, ns.len() as int, Some("@included"@), opts, env);
            assert(objects_of_nodes(ns).subrange(0, ns.len() as int) =~= objects_of_nodes(ns));
        },
        None => {},
    }
    match n.graph {
        Some(g) => {
            assert(all_stand_free(g));
            lemma_free(base, g, g.len() as int, Some("@graph"@), opts, env);
            assert(g.subrange(0, g.len() as int) =~= g);
        },
        None => {},
    }
    assert(parts_written(base, n, index, opts));
    assert(parts_read(base, n, index, opts, env));
    lemma_node_assembled(base, n, index, property, opts, env);
}

} // verus!
