//! Objects that hold the same are equal under the identity renaming.

use vstd::prelude::*;
use vstd::std_specs::cmp::PartialEqSpec;

use crate::iri::{BlankIdBuf, IriBuf};
use crate::object::indexed::Indexed;
use crate::object::mapped_eq::{
    id_matches,
    identity,
    indexed_object_matches,
    item_pairs,
    list_matches,
    node_matches,
    node_pairs,
    nodes_match,
    object_matches,
    object_pairs,
    objects_match,
    properties_match,
    property_pairs,
    reverse_properties_match,
    reverse_property_pairs,
    unordered_matches,
    value_matches,
};
use crate::object::matching::lemma_identity_pairs_up;
use crate::object::model::{
    id_model, ids_model, indexed_node_model, indexed_object_model, node_model, nodes_model, object_model,
    objects_model, properties_model, reverse_properties_model, value_model, NodeId,
};
use crate::object::node::{Node, Object, PropertyEntry, ReversePropertyEntry};
use crate::object::value::Value;

verus! {

/// Identifiers with the same plain data are equal.
pub proof fn lemma_same_id(a: NodeId, b: NodeId)
    requires
        id_model(a) == id_model(b),
    ensures
        id_matches(a, b, identity()),
{
}

/// Collections of identifiers with the same plain data are equal.
pub proof fn lemma_same_ids(a: Seq<NodeId>, b: Seq<NodeId>)
    requires
        ids_model(a) == ids_model(b),
    ensures
        unordered_matches::<NodeId>(a, b, identity()),
{
    assert(a.len() == ids_model(a).len());
    assert(b.len() == ids_model(b).len());
    let rel = item_pairs::<NodeId>(a, b, identity());
    assert forall|i: int| 0 <= i < a.len() implies #[trigger] rel(i, i) by {
        assert(ids_model(a)[i] == id_model(a[i]));
        assert(ids_model(b)[i] == id_model(b[i]));
        lemma_same_id(a[i], b[i]);
    }
    lemma_identity_pairs_up(a.len() as int, rel);
}

/// Values with the same plain data are equal.
pub proof fn lemma_same_value(a: Value<IriBuf>, b: Value<IriBuf>)
    requires
        value_model(a) == value_model(b),
    ensures
        value_matches(a, b),
{
}

/// Objects with the same plain data are equal under the identity renaming.
pub proof fn lemma_same_object(a: Object<IriBuf, BlankIdBuf>, b: Object<IriBuf, BlankIdBuf>)
    requires
        object_model(a) == object_model(b),
    ensures
        object_matches(a, b, identity()),
    decreases a,
{
    match (a, b) {
        (Object::Value(x), Object::Value(y)) => {
            lemma_same_value(x, y);
        },
        (Object::Node(x), Object::Node(y)) => {
            lemma_same_node(x, y);
        },
        (Object::List(x), Object::List(y)) => {
            lemma_same_list(x.items@, y.items@);
        },
        _ => {},
    }
}

/// Lists with the same plain data are equal under the identity renaming.
pub proof fn lemma_same_list(
    a: Seq<Indexed<Object<IriBuf, BlankIdBuf>>>,
    b: Seq<Indexed<Object<IriBuf, BlankIdBuf>>>,
)
    requires
        objects_model(a) == objects_model(b),
    ensures
        list_matches(a, b, identity()),
    decreases a,
{
    assert(a.len() == objects_model(a).len());
    assert(b.len() == objects_model(b).len());
    assert forall|i: int| 0 <= i < a.len() implies indexed_object_matches(#[trigger] a[i], b[i], identity()) by {
        assert(objects_model(a)[i] == indexed_object_model(a[i]));
        assert(objects_model(b)[i] == indexed_object_model(b[i]));
        lemma_same_object(a[i].inner, b[i].inner);
    }
}

/// Documents with the same plain data are equal under the identity renaming.
pub proof fn lemma_same_objects(
    a: Seq<Indexed<Object<IriBuf, BlankIdBuf>>>,
    b: Seq<Indexed<Object<IriBuf, BlankIdBuf>>>,
)
    requires
        objects_model(a) == objects_model(b),
    ensures
        objects_match(a, b, identity()),
    decreases a,
{
    assert(a.len() == objects_model(a).len());
    assert(b.len() == objects_model(b).len());
    let rel = object_pairs(a, b, identity());
    assert forall|i: int| 0 <= i < a.len() implies #[trigger] rel(i, i) by {
        assert(objects_model(a)[i] == indexed_object_model(a[i]));
        assert(objects_model(b)[i] == indexed_object_model(b[i]));
        lemma_same_object(a[i].inner, b[i].inner);
    }
    lemma_identity_pairs_up(a.len() as int, rel);
}

/// Collections of nodes with the same plain data are equal under the identity renaming.
pub proof fn lemma_same_nodes(
    a: Seq<Indexed<Node<IriBuf, BlankIdBuf>>>,
    b: Seq<Indexed<Node<IriBuf, BlankIdBuf>>>,
)
    requires
        nodes_model(a) == nodes_model(b),
    ensures
        nodes_match(a, b, identity()),
    decreases a,
{
    assert(a.len() == nodes_model(a).len());
    assert(b.len() == nodes_model(b).len());
    let rel = node_pairs(a, b, identity());
    assert forall|i: int| 0 <= i < a.len() implies #[trigger] rel(i, i) by {
        assert(nodes_model(a)[i] == indexed_node_model(a[i]));
        assert(nodes_model(b)[i] == indexed_node_model(b[i]));
        lemma_same_node(a[i].inner, b[i].inner);
    }
    lemma_identity_pairs_up(a.len() as int, rel);
}

/// Properties with the same plain data are equal under the identity renaming.
pub proof fn lemma_same_properties(
    a: Seq<PropertyEntry<IriBuf, BlankIdBuf>>,
    b: Seq<PropertyEntry<IriBuf, BlankIdBuf>>,
)
    requires
        properties_model(a) == properties_model(b),
    ensures
        properties_match(a, b, identity()),
    decreases a,
{
    assert(a.len() == properties_model(a).len());
    assert(b.len() == properties_model(b).len());
    let rel = property_pairs(a, b, identity());
    assert forall|i: int| 0 <= i < a.len() implies #[trigger] rel(i, i) by {
        assert(properties_model(a)[i] == (id_model(a[i].property), objects_model(a[i].objects@)));
        assert(properties_model(b)[i] == (id_model(b[i].property), objects_model(b[i].objects@)));
        lemma_same_id(a[i].property, b[i].property);
        lemma_same_objects(a[i].objects@, b[i].objects@);
    }
    lemma_identity_pairs_up(a.len() as int, rel);
}

/// Reverse properties with the same plain data are equal under the identity renaming.
pub proof fn lemma_same_reverse_properties(
    a: Seq<ReversePropertyEntry<IriBuf, BlankIdBuf>>,
    b: Seq<ReversePropertyEntry<IriBuf, BlankIdBuf>>,
)
    requires
        reverse_properties_model(a) == reverse_properties_model(b),
    ensures
        reverse_properties_match(a, b, identity()),
    decreases a,
{
    assert(a.len() == reverse_properties_model(a).len());
    assert(b.len() == reverse_properties_model(b).len());
    let rel = reverse_property_pairs(a, b, identity());
    assert forall|i: int| 0 <= i < a.len() implies #[trigger] rel(i, i) by {
        assert(reverse_properties_model(a)[i] == (id_model(a[i].property), nodes_model(a[i].nodes@)));
        assert(reverse_properties_model(b)[i] == (id_model(b[i].property), nodes_model(b[i].nodes@)));
        lemma_same_id(a[i].property, b[i].property);
        lemma_same_nodes(a[i].nodes@, b[i].nodes@);
    }
    lemma_identity_pairs_up(a.len() as int, rel);
}

/// Nodes with the same plain data are equal under the identity renaming.
pub proof fn lemma_same_node(a: Node<IriBuf, BlankIdBuf>, b: Node<IriBuf, BlankIdBuf>)
    requires
        node_model(a) == node_model(b),
    ensures
        node_matches(a, b, identity()),
    decreases a,
{
    match (a.id, b.id) {
        (Some(x), Some(y)) => {
            lemma_same_id(x, y);
        },
        _ => {},
    }
    match (a.types, b.types) {
        (Some(x), Some(y)) => {
            lemma_same_ids(x@, y@);
        },
        _ => {},
    }
    match (a.graph, b.graph) {
        (Some(x), Some(y)) => {
            lemma_same_objects(x@, y@);
        },
        _ => {},
    }
    match (a.included, b.included) {
        (Some(x), Some(y)) => {
            lemma_same_nodes(x@, y@);
        },
        _ => {},
    }
    lemma_same_properties(a.properties.entries@, b.properties.entries@);
    match (a.reverse_properties, b.reverse_properties) {
        (Some(x), Some(y)) => {
            lemma_same_reverse_properties(x.entries@, y.entries@);
        },
        _ => {},
    }
}

} // verus!
