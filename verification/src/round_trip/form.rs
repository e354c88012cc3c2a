//! Sound documents: what expansion gives back as it is.

use vstd::prelude::*;

use crate::compaction::model::id_text;
use crate::expansion::model::is_bare;
use crate::object::model::{IdModel, IndexedNodeModel, IndexedObjectModel, NodeModel, ObjectModel, ValueModel};
use crate::round_trip::names::{is_absolute, sound_id};

verus! {

/// Whether a value is sound: its type, if it has one, is an IRI; it has
/// no language or direction beside a type; and only a text has a language.
pub open spec fn sound_value(v: ValueModel) -> bool {
    &&& v.ty is Some ==> is_absolute(v.ty->0) && v.language is None && v.direction is None
    &&& v.language is Some ==> v.literal is Text
}

/// Whether the identifiers are sound.
pub open spec fn sound_ids(ids: Seq<IdModel>) -> bool {
    forall|i: int| 0 <= i < ids.len() ==> sound_id(#[trigger] ids[i])
}

/// Whether no two of the properties have the same name.
pub open spec fn apart<V>(ps: Seq<(IdModel, V)>) -> bool {
    forall|i: int, j: int| 0 <= i < j < ps.len() ==> id_text((#[trigger] ps[i]).0) != id_text((#[trigger] ps[j]).0)
}

/// Whether an object is sound: a sound value, a sound node, or a list of sound objects.
pub open spec fn sound_object(o: IndexedObjectModel) -> bool
    decreases o,
{
    match o.inner {
        ObjectModel::Value(v) => sound_value(v),
        ObjectModel::Node(n) => sound_node(n),
        ObjectModel::List(items) => forall|i: int| 0 <= i < items.len() ==> sound_object(#[trigger] items[i]),
    }
}

/// Whether an object can stand free, in a graph or at the top of a
/// document: it is a sound node that has more than an identifier.
pub open spec fn stands_free(o: IndexedObjectModel) -> bool {
    match o.inner {
        ObjectModel::Node(n) => !is_bare(n) && sound_node(n),
        _ => false,
    }
}

/// Whether a node is sound.
///
/// Its identifier and its types are sound identifiers. The objects of
/// its graph can stand free. The nodes it includes are sound. Each of
/// its properties has a sound identifier, that no other has, and at least
/// one object, all sound. It has reverse properties or none; each has a
/// sound identifier, that no other has, and at least one node, all sound.
pub open spec fn sound_node(n: NodeModel) -> bool
    decreases n,
{
    &&& n.id is Some ==> sound_id(n.id->0)
    &&& n.types is Some ==> sound_ids(n.types->0)
    &&& n.graph is Some ==> forall|i: int|
        0 <= i < n.graph->0.len() ==> (#[trigger] n.graph->0[i]).inner is Node && !is_bare(
            n.graph->0[i].inner->Node_0,
        ) && sound_node(n.graph->0[i].inner->Node_0)
    &&& n.included is Some ==> forall|i: int|
        0 <= i < n.included->0.len() ==> sound_node((#[trigger] n.included->0[i]).inner)
    &&& apart(n.properties)
    &&& forall|i: int|
        0 <= i < n.properties.len() ==> sound_id((#[trigger] n.properties[i]).0) && n.properties[i].1.len() > 0
            && forall|j: int|
            0 <= j < n.properties[i].1.len() ==> sound_object(#[trigger] n.properties[i].1[j])
    &&& n.reverse_properties is Some ==> {
        let r = n.reverse_properties->0;
        &&& r.len() > 0
        &&& apart(r)
        &&& forall|i: int|
            0 <= i < r.len() ==> sound_id((#[trigger] r[i]).0) && r[i].1.len() > 0 && forall|j: int|
                0 <= j < r[i].1.len() ==> sound_node((#[trigger] r[i].1[j]).inner)
    }
}

/// Whether the nodes are sound.
pub open spec fn sound_nodes(ns: Seq<IndexedNodeModel>) -> bool {
    forall|i: int| 0 <= i < ns.len() ==> sound_node((#[trigger] ns[i]).inner)
}

/// Whether the objects are sound.
pub open spec fn sound_objects(os: Seq<IndexedObjectModel>) -> bool {
    forall|i: int| 0 <= i < os.len() ==> sound_object(#[trigger] os[i])
}

/// Whether all the objects can stand free.
pub open spec fn all_stand_free(os: Seq<IndexedObjectModel>) -> bool {
    forall|i: int| 0 <= i < os.len() ==> stands_free(#[trigger] os[i])
}

/// Whether the objects are those of a sound document: all can stand
/// free, and they are not the one node with nothing but a graph, which
/// stands for the objects of that graph.
pub open spec fn sound_document(os: Seq<IndexedObjectModel>) -> bool {
    all_stand_free(os) && !is_wrapper(os)
}

/// Whether the objects are one node without an index that has a graph and
/// nothing else: such a node stands for the objects of its graph.
pub open spec fn is_wrapper(os: Seq<IndexedObjectModel>) -> bool {
    os.len() == 1 && os[0].index is None && (os[0].inner matches ObjectModel::Node(n) && n.id is None && n.types is None
        && n.graph is Some && n.included is None && n.properties.len() == 0 && n.reverse_properties is None)
}

/// Whether each of the properties has a sound identifier and at least one object, all sound.
pub open spec fn sound_properties(ps: Seq<(IdModel, Seq<IndexedObjectModel>)>) -> bool {
    forall|i: int| 0 <= i < ps.len() ==> sound_id((#[trigger] ps[i]).0) && ps[i].1.len() > 0 && sound_objects(ps[i].1)
}

/// Whether each of the reverse properties has a sound identifier and at least one node, all sound.
pub open spec fn sound_reverse(r: Seq<(IdModel, Seq<IndexedNodeModel>)>) -> bool {
    forall|i: int| 0 <= i < r.len() ==> sound_id((#[trigger] r[i]).0) && r[i].1.len() > 0 && sound_nodes(r[i].1)
}

/// A list is sound exactly when its items are.
pub proof fn lemma_sound_list(o: IndexedObjectModel)
    requires
        o.inner is List,
    ensures
        sound_object(o) == sound_objects(o.inner->List_0),
{
}

/// A node is sound exactly when its parts are.
pub proof fn lemma_sound_node(n: NodeModel)
    ensures
        sound_node(n) == ((n.id is Some ==> sound_id(n.id->0)) && (n.types is Some ==> sound_ids(n.types->0)) && (n.graph
            is Some ==> all_stand_free(n.graph->0)) && (n.included is Some ==> sound_nodes(n.included->0)) && apart(
            n.properties,
        ) && sound_properties(n.properties) && (n.reverse_properties is Some ==> n.reverse_properties->0.len() > 0
            && apart(n.reverse_properties->0) && sound_reverse(n.reverse_properties->0))),
{
    if n.graph is Some {
        let g = n.graph->0;
        assert(all_stand_free(g) == (forall|i: int|
            0 <= i < g.len() ==> (#[trigger] g[i]).inner is Node && !is_bare(g[i].inner->Node_0) && sound_node(
                g[i].inner->Node_0,
            ))) by {
            assert forall|i: int| 0 <= i < g.len() implies stands_free(#[trigger] g[i]) == (g[i].inner is Node && !is_bare(
                g[i].inner->Node_0,
            ) && sound_node(g[i].inner->Node_0)) by {}
        }
    }
}

} // verus!
