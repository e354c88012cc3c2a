//! A node written in the context without terms, put together from its parts.

use vstd::prelude::*;

use crate::compaction::model::{
    compact_node, compact_nodes, compact_objects, compact_properties, compact_reverse, entry_if, id_text, Options,
};
use crate::context::ActiveContextModel;
use crate::error::ErrorCode;
use crate::expansion::model::{expand_element, expand_entries, expand_items, expand_reverse, free_floating, is_bare, NodeState};
use crate::json::JsonView;
use crate::object::model::{IndexedNodeModel, IndexedObjectModel, NodeModel, ObjectModel};
use crate::processing::model::Env;
use crate::round_trip::form::sound_ids;
use crate::round_trip::names::{lemma_keyword_texts, lemma_sound_id, lemma_sound_name, sound_id};
use crate::round_trip::parts::{
    head_entries,
    lemma_node_entries,
    lemma_types,
    node_key,
    node_keys,
    start,
    type_texts,
};
use crate::round_trip::steps::{expand_one, lemma_entries_added, lemma_entries_from, lemma_nodes_of, objects_of_nodes};

verus! {

/// The entries of a node up to its properties, as they are written.
pub open spec fn written_properties(
    base: Option<Seq<char>>,
    n: NodeModel,
    index: Option<Seq<char>>,
    opts: Options,
) -> Result<Seq<(Seq<char>, JsonView)>, ErrorCode> {
    compact_properties(
        ActiveContextModel::empty(base),
        n.properties,
        n.properties.len() as int,
        head_entries(n.id, n.types, index, opts),
        opts,
    )
}

/// The entries of the `@reverse` entry of a node, as they are written.
pub open spec fn written_inside(
    base: Option<Seq<char>>,
    n: NodeModel,
    index: Option<Seq<char>>,
    opts: Options,
) -> Seq<(Seq<char>, JsonView)> {
    match n.reverse_properties {
        Some(r) => compact_reverse(
            ActiveContextModel::empty(base),
            r,
            r.len() as int,
            written_properties(base, n, index, opts)->Ok_0,
            Seq::empty(),
            opts,
        )->Ok_0.1,
        None => Seq::empty(),
    }
}

/// The nodes that a node includes, as they are written.
pub open spec fn written_included(base: Option<Seq<char>>, n: NodeModel, opts: Options) -> Option<JsonView> {
    match n.included {
        Some(ns) => Some(
            JsonView::Array(compact_nodes(ActiveContextModel::empty(base), ns, ns.len() as int, opts)->Ok_0),
        ),
        None => None,
    }
}

/// The graph of a node, as it is written.
pub open spec fn written_graph(base: Option<Seq<char>>, n: NodeModel, opts: Options) -> Option<JsonView> {
    match n.graph {
        Some(g) => Some(
            JsonView::Array(compact_objects(ActiveContextModel::empty(base), g, g.len() as int, opts)->Ok_0),
        ),
        None => None,
    }
}

/// The entries of a node up to its reverse properties, as they are written.
pub open spec fn written_reverse(
    base: Option<Seq<char>>,
    n: NodeModel,
    index: Option<Seq<char>>,
    opts: Options,
) -> Seq<(Seq<char>, JsonView)> {
    let es = written_properties(base, n, index, opts)->Ok_0;
    let inside = written_inside(base, n, index, opts);
    if inside.len() > 0 {
        es.push(("@reverse"@, JsonView::Object(inside)))
    } else {
        es
    }
}

/// The entries of a node, as they are written.
pub open spec fn written(
    base: Option<Seq<char>>,
    n: NodeModel,
    index: Option<Seq<char>>,
    opts: Options,
) -> Seq<(Seq<char>, JsonView)> {
    written_reverse(base, n, index, opts) + entry_if("@included"@, written_included(base, n, opts)) + entry_if(
        "@graph"@,
        written_graph(base, n, opts),
    )
}

/// Whether the parts of a node can be written.
pub open spec fn parts_written(base: Option<Seq<char>>, n: NodeModel, index: Option<Seq<char>>, opts: Options) -> bool {
    let active = ActiveContextModel::empty(base);
    &&& written_properties(base, n, index, opts) is Ok
    &&& n.reverse_properties is Some ==> {
        let r = n.reverse_properties->0;
        let pair = compact_reverse(
            active,
            r,
            r.len() as int,
            written_properties(base, n, index, opts)->Ok_0,
            Seq::empty(),
            opts,
        );
        pair is Ok && pair->Ok_0.0 == written_properties(base, n, index, opts)->Ok_0
    }
    &&& n.included is Some ==> compact_nodes(active, n.included->0, n.included->0.len() as int, opts) is Ok
    &&& n.graph is Some ==> compact_objects(active, n.graph->0, n.graph->0.len() as int, opts) is Ok
}

/// A node whose parts can be written is written as its entries.
pub proof fn lemma_written_node(base: Option<Seq<char>>, n: NodeModel, index: Option<Seq<char>>, opts: Options)
    requires
        n.id is Some ==> sound_id(n.id->0),
        n.types is Some ==> sound_ids(n.types->0),
        parts_written(base, n, index, opts),
    ensures
        compact_node(ActiveContextModel::empty(base), n, index, opts) == Ok::<_, ErrorCode>(
            JsonView::Object(written(base, n, index, opts)),
        ),
{
    let active = ActiveContextModel::empty(base);
    if n.id is Some {
        lemma_sound_id(base, n.id->0, false);
        lemma_sound_name(base, id_text(n.id->0), true, false);
    }
    if n.types is Some {
        lemma_types(base, n.types->0, n.types->0.len() as int);
        assert(type_texts(n.types->0).subrange(0, n.types->0.len() as int) =~= type_texts(n.types->0));
    }
}

/// The node in the making of which all but the reverse properties, the included nodes and the graph is known.
pub open spec fn properties_state(n: NodeModel, index: Option<Seq<char>>) -> NodeState {
    NodeState { node: NodeModel { id: n.id, types: n.types, properties: n.properties, ..crate::object::model::empty_node() }, index }
}

/// The node in the making of which all but the included nodes and the graph is known.
pub open spec fn reverse_state(n: NodeModel, index: Option<Seq<char>>) -> NodeState {
    NodeState {
        node: NodeModel { reverse_properties: n.reverse_properties, ..properties_state(n, index).node },
        index,
    }
}

/// The node in the making of which all but the graph is known.
pub open spec fn included_state(n: NodeModel, index: Option<Seq<char>>) -> NodeState {
    NodeState { node: NodeModel { included: n.included, ..reverse_state(n, index).node }, index }
}

/// Entries that make a node, with an `@reverse` entry after them, make what the
/// entries of that entry make of the node.
pub proof fn lemma_reverse_added(
    base: Option<Seq<char>>,
    es: Seq<(Seq<char>, JsonView)>,
    st: NodeState,
    inside: Seq<(Seq<char>, JsonView)>,
    env: Env,
)
    requires
        node_keys(es),
        expand_entries(ActiveContextModel::empty(base), es, 0, start(), env) == Ok::<_, ErrorCode>(st),
    ensures
        node_keys(es.push(("@reverse"@, JsonView::Object(inside)))),
        expand_entries(
            ActiveContextModel::empty(base),
            es.push(("@reverse"@, JsonView::Object(inside))),
            0,
            start(),
            env,
        ) == expand_reverse(ActiveContextModel::empty(base), inside, 0, st, env),
{
    let active = ActiveContextModel::empty(base);
    lemma_keyword_texts();
    let x = ("@reverse"@, JsonView::Object(inside));
    lemma_entries_from(active, es, x, 0, start(), env);
    assert(expand_one(active, "@reverse"@, JsonView::Object(inside), st, env) == expand_reverse(
        active,
        inside,
        0,
        st,
        env,
    ));
    let all = es.push(x);
    assert forall|j: int| 0 <= j < all.len() implies node_key((#[trigger] all[j]).0) by {
        if j < es.len() {
            assert(all[j] == es[j]);
        }
    }
}

/// Entries that make a node that includes nothing, with an `@included`
/// entry after them, where the node is to include anything, make the
/// node with what it includes.
pub proof fn lemma_included_added(
    base: Option<Seq<char>>,
    es: Seq<(Seq<char>, JsonView)>,
    st: NodeState,
    included: Option<Seq<IndexedNodeModel>>,
    js: Seq<JsonView>,
    env: Env,
)
    requires
        node_keys(es),
        expand_entries(ActiveContextModel::empty(base), es, 0, start(), env) == Ok::<_, ErrorCode>(st),
        st.node.included is None,
        included is Some ==> expand_items(
            ActiveContextModel::empty(base),
            Some("@included"@),
            js,
            js.len() as int,
            env,
        ) == Ok::<_, ErrorCode>(objects_of_nodes(included->0)),
    ensures
        node_keys(
            es + entry_if(
                "@included"@,
                match included {
                    Some(ns) => Some(JsonView::Array(js)),
                    None => None,
                },
            ),
        ),
        expand_entries(
            ActiveContextModel::empty(base),
            es + entry_if(
                "@included"@,
                match included {
                    Some(ns) => Some(JsonView::Array(js)),
                    None => None,
                },
            ),
            0,
            start(),
            env,
        ) == Ok::<_, ErrorCode>(NodeState { node: NodeModel { included, ..st.node }, ..st }),
{
    let active = ActiveContextModel::empty(base);
    lemma_keyword_texts();
    let value = match included {
        Some(ns) => Some(JsonView::Array(js)),
        None => None,
    };
    let all = es + entry_if("@included"@, value);
    lemma_entries_added(active, es, "@included"@, value, start(), env);
    match included {
        Some(ns) => {
            lemma_nodes_of(ns, ns.len() as int);
            assert(ns.subrange(0, ns.len() as int) =~= ns);
            assert(expand_element(active, Some("@included"@), JsonView::Array(js), env) == Ok::<_, ErrorCode>(
                objects_of_nodes(ns),
            ));
            assert(expand_one(active, "@included"@, JsonView::Array(js), st, env) == Ok::<_, ErrorCode>(
                NodeState { node: NodeModel { included, ..st.node }, ..st },
            ));
        },
        None => {
            assert(st == NodeState { node: NodeModel { included, ..st.node }, ..st });
        },
    }
    assert forall|j: int| 0 <= j < all.len() implies node_key((#[trigger] all[j]).0) by {
        if j < es.len() {
            assert(all[j] == es[j]);
        }
    }
}

/// Entries that make a node without a graph, with an `@graph` entry after
/// them, where the node is to have a graph, make the node with its graph.
pub proof fn lemma_graph_added(
    base: Option<Seq<char>>,
    es: Seq<(Seq<char>, JsonView)>,
    st: NodeState,
    graph: Option<Seq<IndexedObjectModel>>,
    js: Seq<JsonView>,
    env: Env,
)
    requires
        node_keys(es),
        expand_entries(ActiveContextModel::empty(base), es, 0, start(), env) == Ok::<_, ErrorCode>(st),
        st.node.graph is None,
        graph is Some ==> expand_items(ActiveContextModel::empty(base), Some("@graph"@), js, js.len() as int, env)
            == Ok::<_, ErrorCode>(graph->0),
    ensures
        node_keys(
            es + entry_if(
                "@graph"@,
                match graph {
                    Some(g) => Some(JsonView::Array(js)),
                    None => None,
                },
            ),
        ),
        expand_entries(
            ActiveContextModel::empty(base),
            es + entry_if(
                "@graph"@,
                match graph {
                    Some(g) => Some(JsonView::Array(js)),
                    None => None,
                },
            ),
            0,
            start(),
            env,
        ) == Ok::<_, ErrorCode>(NodeState { node: NodeModel { graph, ..st.node }, ..st }),
{
    let active = ActiveContextModel::empty(base);
    lemma_keyword_texts();
    let value = match graph {
        Some(g) => Some(JsonView::Array(js)),
        None => None,
    };
    let all = es + entry_if("@graph"@, value);
    lemma_entries_added(active, es, "@graph"@, value, start(), env);
    match graph {
        Some(g) => {
            assert(expand_element(active, Some("@graph"@), JsonView::Array(js), env) == Ok::<_, ErrorCode>(g));
            assert(expand_one(active, "@graph"@, JsonView::Array(js), st, env) == Ok::<_, ErrorCode>(
                NodeState { node: NodeModel { graph, ..st.node }, ..st },
            ));
        },
        None => {
            assert(st == NodeState { node: NodeModel { graph, ..st.node }, ..st });
        },
    }
    assert forall|j: int| 0 <= j < all.len() implies node_key((#[trigger] all[j]).0) by {
        if j < es.len() {
            assert(all[j] == es[j]);
        }
    }
}

/// Whether the parts of a node, as they are written, are read again as the parts that they were.
pub open spec fn parts_read(
    base: Option<Seq<char>>,
    n: NodeModel,
    index: Option<Seq<char>>,
    opts: Options,
    env: Env,
) -> bool {
    let active = ActiveContextModel::empty(base);
    &&& node_keys(written_properties(base, n, index, opts)->Ok_0)
    &&& expand_entries(active, written_properties(base, n, index, opts)->Ok_0, 0, start(), env) == Ok::<_, ErrorCode>(
        properties_state(n, index),
    )
    &&& n.reverse_properties is Some ==> written_inside(base, n, index, opts).len() > 0 && expand_reverse(
        active,
        written_inside(base, n, index, opts),
        0,
        properties_state(n, index),
        env,
    ) == Ok::<_, ErrorCode>(reverse_state(n, index))
    &&& n.included is Some ==> expand_items(
        active,
        Some("@included"@),
        written_included(base, n, opts)->0->Array_0,
        written_included(base, n, opts)->0->Array_0.len() as int,
        env,
    ) == Ok::<_, ErrorCode>(objects_of_nodes(n.included->0))
    &&& n.graph is Some ==> expand_items(
        active,
        Some("@graph"@),
        written_graph(base, n, opts)->0->Array_0,
        written_graph(base, n, opts)->0->Array_0.len() as int,
        env,
    ) == Ok::<_, ErrorCode>(n.graph->0)
}

/// A node whose parts are written and read again as they were is itself
/// written and read again as it was.
pub proof fn lemma_node_assembled(
    base: Option<Seq<char>>,
    n: NodeModel,
    index: Option<Seq<char>>,
    property: Option<Seq<char>>,
    opts: Options,
    env: Env,
)
    requires
        n.id is Some ==> sound_id(n.id->0),
        n.types is Some ==> sound_ids(n.types->0),
        free_floating(property) ==> !is_bare(n),
        parts_written(base, n, index, opts),
        parts_read(base, n, index, opts, env),
    ensures
        compact_node(ActiveContextModel::empty(base), n, index, opts) is Ok,
        compact_node(ActiveContextModel::empty(base), n, index, opts)->Ok_0 is Object,
        expand_element(
            ActiveContextModel::empty(base),
            property,
            compact_node(ActiveContextModel::empty(base), n, index, opts)->Ok_0,
            env,
        ) == Ok::<_, ErrorCode>(seq![IndexedObjectModel { inner: ObjectModel::Node(n), index }]),
{
    let active = ActiveContextModel::empty(base);
    lemma_written_node(base, n, index, opts);
    let es_p = written_properties(base, n, index, opts)->Ok_0;
    let inside = written_inside(base, n, index, opts);
    let es_r = written_reverse(base, n, index, opts);
    if n.reverse_properties is Some {
        lemma_reverse_added(base, es_p, properties_state(n, index), inside, env);
    } else {
        assert(inside.len() == 0);
        assert(reverse_state(n, index) == properties_state(n, index));
    }
    assert(node_keys(es_r));
    assert(expand_entries(active, es_r, 0, start(), env) == Ok::<_, ErrorCode>(reverse_state(n, index)));
    let js_i = match n.included {
        Some(ns) => written_included(base, n, opts)->0->Array_0,
        None => Seq::empty(),
    };
    lemma_included_added(base, es_r, reverse_state(n, index), n.included, js_i, env);
    let es_i = es_r + entry_if("@included"@, written_included(base, n, opts));
    assert(node_keys(es_i));
    assert(expand_entries(active, es_i, 0, start(), env) == Ok::<_, ErrorCode>(included_state(n, index)));
    let js_g = match n.graph {
        Some(g) => written_graph(base, n, opts)->0->Array_0,
        None => Seq::empty(),
    };
    lemma_graph_added(base, es_i, included_state(n, index), n.graph, js_g, env);
    let es_g = written(base, n, index, opts);
    let st = NodeState { node: n, index };
    assert(NodeModel { graph: n.graph, ..included_state(n, index).node } == n);
    assert(expand_entries(active, es_g, 0, start(), env) == Ok::<_, ErrorCode>(st));
    lemma_node_entries(base, property, es_g, st, env);
}

} // verus!
