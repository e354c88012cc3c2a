//! What holds of the comparison of expanded values.

use vstd::prelude::*;
use vstd::std_specs::cmp::PartialEqSpec;

use crate::object::id::{Id, ValidId};
use crate::object::indexed::Indexed;
use crate::object::mapped_eq::{
    id_matches,
    identity,
    indexed_object_matches,
    item_pairs,
    lemma_object_difunctional,
    lemma_objects_difunctional,
    list_matches,
    node_matches,
    node_pairs,
    nodes_match,
    object_matches,
    object_pairs,
    objects_match,
    obeys_id_eq,
    properties_match,
    property_pairs,
    reverse_properties_match,
    reverse_property_pairs,
    unordered_matches,
    value_matches,
};
use crate::object::matching::{is_pairing, lemma_identity_pairs_up};
use crate::object::node::{Node, Object, PropertyEntry, ReversePropertyEntry};
use crate::object::value::Value;

verus! {

/// Every identifier equals itself.
pub open spec fn reflexive_eq<T: PartialEq>() -> bool {
    forall|x: T| #[trigger] x.eq_spec(&x)
}

/// With the identity renaming two blank node labels are equal only if they
/// are the same label, and a blank node label equals nothing else.
pub proof fn lemma_identity_keeps_blank_labels_apart<T: PartialEq, B: PartialEq>(x: B, b: Id<T, B>)
    ensures
        id_matches(Id::Valid(ValidId::Blank(x)), b, identity()) <==> (b matches Id::Valid(ValidId::Blank(y))
            && x.eq_spec(&y)),
{
}

/// Where two documents are equal under the identity renaming, each node of
/// the first that a blank node label names has in the second a node named by
/// the same label.
pub proof fn lemma_blank_node_isolation<T: PartialEq, B: PartialEq>(
    xs: Seq<Indexed<Object<T, B>>>,
    ys: Seq<Indexed<Object<T, B>>>,
    i: int,
    x: B,
) -> (j: int)
    requires
        objects_match(xs, ys, identity()),
        0 <= i < xs.len(),
        xs[i].inner matches Object::Node(n) && n.id == Some(Id::<T, B>::Valid(ValidId::Blank(x))),
    ensures
        0 <= j < ys.len(),
        ys[j].inner matches Object::Node(m) && (m.id matches Some(Id::Valid(ValidId::Blank(y)))
            && x.eq_spec(&y)),
{
    let p = choose|p: Seq<int>| is_pairing(xs.len() as int, object_pairs(xs, ys, identity()), p);
    let j = p[i];
    assert(object_pairs(xs, ys, identity())(i, j));
    assert(indexed_object_matches(xs[i], ys[j], identity()));
    j
}

/// A value equals itself.
pub proof fn lemma_value_reflexive<T: PartialEq>(a: Value<T>)
    requires
        reflexive_eq::<T>(),
    ensures
        value_matches(a, a),
{
}

/// A collection of identifiers equals itself under the identity renaming.
pub proof fn lemma_ids_reflexive<T: PartialEq, B: PartialEq>(xs: Seq<Id<T, B>>)
    requires
        reflexive_eq::<T>(),
        reflexive_eq::<B>(),
    ensures
        unordered_matches::<Id<T, B>>(xs, xs, identity()),
{
    lemma_identity_pairs_up(xs.len() as int, item_pairs::<Id<T, B>>(xs, xs, identity()));
}

/// An object equals itself under the identity renaming.
pub proof fn lemma_object_reflexive<T: PartialEq, B: PartialEq>(a: Object<T, B>)
    requires
        reflexive_eq::<T>(),
        reflexive_eq::<B>(),
    ensures
        object_matches(a, a, identity()),
    decreases a,
{
    match a {
        Object::Value(x) => {
            lemma_value_reflexive(x);
        },
        Object::Node(x) => {
            lemma_node_reflexive(x);
        },
        Object::List(x) => {
            lemma_list_reflexive(x.items@);
        },
    }
}

/// A list equals itself under the identity renaming.
pub proof fn lemma_list_reflexive<T: PartialEq, B: PartialEq>(xs: Seq<Indexed<Object<T, B>>>)
    requires
        reflexive_eq::<T>(),
        reflexive_eq::<B>(),
    ensures
        list_matches(xs, xs, identity()),
    decreases xs,
{
    assert forall|i: int| 0 <= i < xs.len() implies indexed_object_matches(
        #[trigger] xs[i],
        xs[i],
        identity(),
    ) by {
        lemma_object_reflexive(xs[i].inner);
    }
}

/// A collection of objects equals itself under the identity renaming.
pub proof fn lemma_objects_reflexive<T: PartialEq, B: PartialEq>(xs: Seq<Indexed<Object<T, B>>>)
    requires
        reflexive_eq::<T>(),
        reflexive_eq::<B>(),
    ensures
        objects_match(xs, xs, identity()),
    decreases xs,
{
    let rel = object_pairs(xs, xs, identity());
    assert forall|i: int| 0 <= i < xs.len() implies #[trigger] rel(i, i) by {
        lemma_object_reflexive(xs[i].inner);
    }
    lemma_identity_pairs_up(xs.len() as int, rel);
}

/// A collection of nodes equals itself under the identity renaming.
pub proof fn lemma_nodes_reflexive<T: PartialEq, B: PartialEq>(xs: Seq<Indexed<Node<T, B>>>)
    requires
        reflexive_eq::<T>(),
        reflexive_eq::<B>(),
    ensures
        nodes_match(xs, xs, identity()),
    decreases xs,
{
    let rel = node_pairs(xs, xs, identity());
    assert forall|i: int| 0 <= i < xs.len() implies #[trigger] rel(i, i) by {
        lemma_node_reflexive(xs[i].inner);
    }
    lemma_identity_pairs_up(xs.len() as int, rel);
}

/// The properties of a node equal themselves under the identity renaming.
pub proof fn lemma_properties_reflexive<T: PartialEq, B: PartialEq>(xs: Seq<PropertyEntry<T, B>>)
    requires
        reflexive_eq::<T>(),
        reflexive_eq::<B>(),
    ensures
        properties_match(xs, xs, identity()),
    decreases xs,
{
    let rel = property_pairs(xs, xs, identity());
    assert forall|i: int| 0 <= i < xs.len() implies #[trigger] rel(i, i) by {
        lemma_objects_reflexive(xs[i].objects@);
    }
    lemma_identity_pairs_up(xs.len() as int, rel);
}

/// The reverse properties of a node equal themselves under the identity renaming.
pub proof fn lemma_reverse_properties_reflexive<T: PartialEq, B: PartialEq>(
    xs: Seq<ReversePropertyEntry<T, B>>,
)
    requires
        reflexive_eq::<T>(),
        reflexive_eq::<B>(),
    ensures
        reverse_properties_match(xs, xs, identity()),
    decreases xs,
{
    let rel = reverse_property_pairs(xs, xs, identity());
    assert forall|i: int| 0 <= i < xs.len() implies #[trigger] rel(i, i) by {
        lemma_nodes_reflexive(xs[i].nodes@);
    }
    lemma_identity_pairs_up(xs.len() as int, rel);
}

/// A node equals itself under the identity renaming.
pub proof fn lemma_node_reflexive<T: PartialEq, B: PartialEq>(a: Node<T, B>)
    requires
        reflexive_eq::<T>(),
        reflexive_eq::<B>(),
    ensures
        node_matches(a, a, identity()),
    decreases a,
{
    if let Some(x) = a.types {
        lemma_ids_reflexive(x@);
    }
    if let Some(x) = a.graph {
        lemma_objects_reflexive(x@);
    }
    if let Some(x) = a.included {
        lemma_nodes_reflexive(x@);
    }
    lemma_properties_reflexive(a.properties.entries@);
    if let Some(x) = a.reverse_properties {
        lemma_reverse_properties_reflexive(x.entries@);
    }
}

/// Under the identity renaming the comparison of objects is symmetric.
pub proof fn lemma_object_symmetric<T: PartialEq, B: PartialEq>(a: Object<T, B>, b: Object<T, B>)
    requires
        obeys_id_eq::<T, B>(),
        reflexive_eq::<T>(),
        reflexive_eq::<B>(),
        object_matches(a, b, identity()),
    ensures
        object_matches(b, a, identity()),
{
    lemma_object_reflexive(a);
    lemma_object_reflexive(b);
    lemma_object_difunctional(a, a, b, b, identity());
}

/// Under the identity renaming the comparison of objects is transitive.
pub proof fn lemma_object_transitive<T: PartialEq, B: PartialEq>(
    a: Object<T, B>,
    b: Object<T, B>,
    c: Object<T, B>,
)
    requires
        obeys_id_eq::<T, B>(),
        reflexive_eq::<T>(),
        reflexive_eq::<B>(),
        object_matches(a, b, identity()),
        object_matches(b, c, identity()),
    ensures
        object_matches(a, c, identity()),
{
    lemma_object_reflexive(b);
    lemma_object_difunctional(b, c, a, b, identity());
}

/// Under the identity renaming the comparison of documents is symmetric.
pub proof fn lemma_objects_symmetric<T: PartialEq, B: PartialEq>(
    xs: Seq<Indexed<Object<T, B>>>,
    ys: Seq<Indexed<Object<T, B>>>,
)
    requires
        obeys_id_eq::<T, B>(),
        reflexive_eq::<T>(),
        reflexive_eq::<B>(),
        objects_match(xs, ys, identity()),
    ensures
        objects_match(ys, xs, identity()),
{
    lemma_objects_reflexive(xs);
    lemma_objects_reflexive(ys);
    lemma_objects_difunctional(xs, xs, ys, ys, identity());
}

/// Under the identity renaming the comparison of documents is transitive.
pub proof fn lemma_objects_transitive<T: PartialEq, B: PartialEq>(
    xs: Seq<Indexed<Object<T, B>>>,
    ys: Seq<Indexed<Object<T, B>>>,
    zs: Seq<Indexed<Object<T, B>>>,
)
    requires
        obeys_id_eq::<T, B>(),
        reflexive_eq::<T>(),
        reflexive_eq::<B>(),
        objects_match(xs, ys, identity()),
        objects_match(ys, zs, identity()),
    ensures
        objects_match(xs, zs, identity()),
{
    lemma_objects_reflexive(ys);
    lemma_objects_difunctional(ys, zs, xs, ys, identity());
}

} // verus!
