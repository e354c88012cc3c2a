//! Structural equality of expanded values up to a renaming of blank node labels.

use vstd::laws_eq::*;
use vstd::prelude::*;
use vstd::std_specs::cmp::PartialEqSpec;

use crate::object::id::{Id, ValidId};
use crate::object::indexed::Indexed;
use crate::object::matching::{difunctional, find_pairing, lemma_pairs_up_transfer, pairs_up};
use crate::object::node::{
    List, Node, Object, Properties, PropertyEntry, ReverseProperties, ReversePropertyEntry,
};
use crate::object::value::{same_text, text_of, Value};

verus! {

/// `f` can stand for a renaming: it accepts every label and gives for each
/// label one label only.
pub open spec fn is_renaming<'a, 'b, B: 'a + 'b, F: Fn(&'a B) -> &'b B>(f: F) -> bool {
    &&& forall|x: &'a B| #[trigger] call_requires(f, (x,))
    &&& forall|x: &'a B, y: &'b B, z: &'b B|
        #[trigger] call_ensures(f, (x,), y) && #[trigger] call_ensures(f, (x,), z) ==> y == z
}

/// The renaming that `f` computes.
pub open spec fn renaming<'a, 'b, B: 'a + 'b, F: Fn(&'a B) -> &'b B>(f: F) -> spec_fn(B) -> B {
    |x: B| choose|y: B| call_ensures(f, (&x,), &y)
}

/// The renaming that leaves every label as it is.
pub open spec fn identity<B>() -> spec_fn(B) -> B {
    |x: B| x
}

/// Applies the renaming `f` to `x`.
pub fn rename<'a, 'b, B: 'a + 'b, F: Fn(&'a B) -> &'b B>(f: &F, x: &'a B) -> (y: &'b B)
    requires
        is_renaming(*f),
    ensures
        *y == renaming(*f)(*x),
{
    let y = f(x);
    assert(call_ensures(*f, (x,), y));
    y
}

/// Equality of two identifiers that name nodes, the labels of blank nodes taken through `f`.
pub open spec fn valid_id_matches<T: PartialEq, B: PartialEq>(
    a: ValidId<T, B>,
    b: ValidId<T, B>,
    f: spec_fn(B) -> B,
) -> bool {
    match (a, b) {
        (ValidId::Iri(x), ValidId::Iri(y)) => x.eq_spec(&y),
        (ValidId::Blank(x), ValidId::Blank(y)) => f(x).eq_spec(&y),
        _ => false,
    }
}

/// Equality of two identifiers, the labels of blank nodes taken through `f`.
pub open spec fn id_matches<T: PartialEq, B: PartialEq>(a: Id<T, B>, b: Id<T, B>, f: spec_fn(B) -> B) -> bool {
    match (a, b) {
        (Id::Valid(x), Id::Valid(y)) => valid_id_matches(x, y, f),
        (Id::Invalid(x), Id::Invalid(y)) => x@ == y@,
        _ => false,
    }
}

/// Equality of two optional identifiers.
pub open spec fn optional_id_matches<T: PartialEq, B: PartialEq>(
    a: Option<Id<T, B>>,
    b: Option<Id<T, B>>,
    f: spec_fn(B) -> B,
) -> bool {
    match (a, b) {
        (Some(x), Some(y)) => id_matches(x, y, f),
        (None, None) => true,
        _ => false,
    }
}

/// Which items of `xs` may be paired with which of `ys`.
pub open spec fn item_pairs<A: MappedEq>(
    xs: Seq<A>,
    ys: Seq<A>,
    f: spec_fn(A::BlankId) -> A::BlankId,
) -> spec_fn(int, int) -> bool {
    |i: int, j: int| 0 <= i < xs.len() && 0 <= j < ys.len() && xs[i].mapped_eq_spec(&ys[j], f)
}

/// Equality of two collections, whatever their order: they have the same
/// size, and their items pair up one to one into equal items.
pub open spec fn unordered_matches<A: MappedEq>(
    xs: Seq<A>,
    ys: Seq<A>,
    f: spec_fn(A::BlankId) -> A::BlankId,
) -> bool {
    xs.len() == ys.len() && pairs_up(xs.len() as int, item_pairs(xs, ys, f))
}

/// Equality of two sequences: the same length, and equal items at each position.
pub open spec fn ordered_matches<A: MappedEq>(
    xs: Seq<A>,
    ys: Seq<A>,
    f: spec_fn(A::BlankId) -> A::BlankId,
) -> bool {
    &&& xs.len() == ys.len()
    &&& forall|i: int| 0 <= i < xs.len() ==> (#[trigger] xs[i]).mapped_eq_spec(&ys[i], f)
}

/// Equality of two optional values: both absent, or both present and equal.
pub open spec fn optional_matches<A: MappedEq>(
    a: Option<A>,
    b: Option<A>,
    f: spec_fn(A::BlankId) -> A::BlankId,
) -> bool {
    match (a, b) {
        (Some(x), Some(y)) => x.mapped_eq_spec(&y, f),
        (None, None) => true,
        _ => false,
    }
}

/// Equality of two literal values: the same scalar, datatype, language and direction.
pub open spec fn value_matches<T: PartialEq>(a: Value<T>, b: Value<T>) -> bool {
    &&& a.literal.view() == b.literal.view()
    &&& match (a.ty, b.ty) {
        (Some(x), Some(y)) => x.eq_spec(&y),
        (None, None) => true,
        _ => false,
    }
    &&& text_of(a.language) == text_of(b.language)
    &&& a.direction == b.direction
}

/// Equality of two objects, the labels of blank nodes taken through `f`.
pub open spec fn object_matches<T: PartialEq, B: PartialEq>(
    a: Object<T, B>,
    b: Object<T, B>,
    f: spec_fn(B) -> B,
) -> bool
    decreases a,
{
    match a {
        Object::Value(x) => b matches Object::Value(y) && value_matches(x, y),
        Object::Node(x) => b matches Object::Node(y) && node_matches(x, y, f),
        Object::List(x) => b matches Object::List(y) && list_matches(x.items@, y.items@, f),
    }
}

/// Equality of two indexed objects: the same index, and equal objects.
pub open spec fn indexed_object_matches<T: PartialEq, B: PartialEq>(
    a: Indexed<Object<T, B>>,
    b: Indexed<Object<T, B>>,
    f: spec_fn(B) -> B,
) -> bool
    decreases a,
{
    text_of(a.index) == text_of(b.index) && object_matches(a.inner, b.inner, f)
}

/// Equality of two indexed nodes: the same index, and equal nodes.
pub open spec fn indexed_node_matches<T: PartialEq, B: PartialEq>(
    a: Indexed<Node<T, B>>,
    b: Indexed<Node<T, B>>,
    f: spec_fn(B) -> B,
) -> bool
    decreases a,
{
    text_of(a.index) == text_of(b.index) && node_matches(a.inner, b.inner, f)
}

/// Equality of two lists: the same length, and equal objects at each position.
pub open spec fn list_matches<T: PartialEq, B: PartialEq>(
    xs: Seq<Indexed<Object<T, B>>>,
    ys: Seq<Indexed<Object<T, B>>>,
    f: spec_fn(B) -> B,
) -> bool
    decreases xs,
{
    &&& xs.len() == ys.len()
    &&& forall|i: int| 0 <= i < xs.len() ==> indexed_object_matches(#[trigger] xs[i], ys[i], f)
}

/// Which objects of `xs` may be paired with which of `ys`.
pub open spec fn object_pairs<T: PartialEq, B: PartialEq>(
    xs: Seq<Indexed<Object<T, B>>>,
    ys: Seq<Indexed<Object<T, B>>>,
    f: spec_fn(B) -> B,
) -> spec_fn(int, int) -> bool
    decreases xs, 0nat,
{
    |i: int, j: int| 0 <= i < xs.len() && 0 <= j < ys.len() && indexed_object_matches(xs[i], ys[j], f)
}

/// Equality of two collections of objects, whatever their order.
pub open spec fn objects_match<T: PartialEq, B: PartialEq>(
    xs: Seq<Indexed<Object<T, B>>>,
    ys: Seq<Indexed<Object<T, B>>>,
    f: spec_fn(B) -> B,
) -> bool
    decreases xs, 1nat,
{
    xs.len() == ys.len() && pairs_up(xs.len() as int, object_pairs(xs, ys, f))
}

/// Which nodes of `xs` may be paired with which of `ys`.
pub open spec fn node_pairs<T: PartialEq, B: PartialEq>(
    xs: Seq<Indexed<Node<T, B>>>,
    ys: Seq<Indexed<Node<T, B>>>,
    f: spec_fn(B) -> B,
) -> spec_fn(int, int) -> bool
    decreases xs, 0nat,
{
    |i: int, j: int| 0 <= i < xs.len() && 0 <= j < ys.len() && indexed_node_matches(xs[i], ys[j], f)
}

/// Equality of two collections of nodes, whatever their order.
pub open spec fn nodes_match<T: PartialEq, B: PartialEq>(
    xs: Seq<Indexed<Node<T, B>>>,
    ys: Seq<Indexed<Node<T, B>>>,
    f: spec_fn(B) -> B,
) -> bool
    decreases xs, 1nat,
{
    xs.len() == ys.len() && pairs_up(xs.len() as int, node_pairs(xs, ys, f))
}

/// Equality of the entries of two properties: equal properties, with equal objects.
pub open spec fn property_matches<T: PartialEq, B: PartialEq>(
    a: PropertyEntry<T, B>,
    b: PropertyEntry<T, B>,
    f: spec_fn(B) -> B,
) -> bool
    decreases a,
{
    id_matches(a.property, b.property, f) && objects_match(a.objects@, b.objects@, f)
}

/// Which entries of `xs` may be paired with which of `ys`.
pub open spec fn property_pairs<T: PartialEq, B: PartialEq>(
    xs: Seq<PropertyEntry<T, B>>,
    ys: Seq<PropertyEntry<T, B>>,
    f: spec_fn(B) -> B,
) -> spec_fn(int, int) -> bool
    decreases xs, 0nat,
{
    |i: int, j: int| 0 <= i < xs.len() && 0 <= j < ys.len() && property_matches(xs[i], ys[j], f)
}

/// Equality of the properties of two nodes, whatever their order.
pub open spec fn properties_match<T: PartialEq, B: PartialEq>(
    xs: Seq<PropertyEntry<T, B>>,
    ys: Seq<PropertyEntry<T, B>>,
    f: spec_fn(B) -> B,
) -> bool
    decreases xs, 1nat,
{
    xs.len() == ys.len() && pairs_up(xs.len() as int, property_pairs(xs, ys, f))
}

/// Equality of the entries of two reverse properties: equal properties, with equal subjects.
pub open spec fn reverse_property_matches<T: PartialEq, B: PartialEq>(
    a: ReversePropertyEntry<T, B>,
    b: ReversePropertyEntry<T, B>,
    f: spec_fn(B) -> B,
) -> bool
    decreases a,
{
    id_matches(a.property, b.property, f) && nodes_match(a.nodes@, b.nodes@, f)
}

/// Which entries of `xs` may be paired with which of `ys`.
pub open spec fn reverse_property_pairs<T: PartialEq, B: PartialEq>(
    xs: Seq<ReversePropertyEntry<T, B>>,
    ys: Seq<ReversePropertyEntry<T, B>>,
    f: spec_fn(B) -> B,
) -> spec_fn(int, int) -> bool
    decreases xs, 0nat,
{
    |i: int, j: int|
        0 <= i < xs.len() && 0 <= j < ys.len() && reverse_property_matches(xs[i], ys[j], f)
}

/// Equality of the reverse properties of two nodes, whatever their order.
pub open spec fn reverse_properties_match<T: PartialEq, B: PartialEq>(
    xs: Seq<ReversePropertyEntry<T, B>>,
    ys: Seq<ReversePropertyEntry<T, B>>,
    f: spec_fn(B) -> B,
) -> bool
    decreases xs, 1nat,
{
    xs.len() == ys.len() && pairs_up(xs.len() as int, reverse_property_pairs(xs, ys, f))
}

/// Equality of two nodes: equal identifiers, and types, graphs, included
/// nodes, properties and reverse properties that pair up.
pub open spec fn node_matches<T: PartialEq, B: PartialEq>(
    a: Node<T, B>,
    b: Node<T, B>,
    f: spec_fn(B) -> B,
) -> bool
    decreases a,
{
    &&& optional_id_matches(a.id, b.id, f)
    &&& match a.types {
        Some(x) => b.types matches Some(y) && unordered_matches::<Id<T, B>>(x@, y@, f),
        None => b.types is None,
    }
    &&& match a.graph {
        Some(x) => b.graph matches Some(y) && objects_match(x@, y@, f),
        None => b.graph is None,
    }
    &&& match a.included {
        Some(x) => b.included matches Some(y) && nodes_match(x@, y@, f),
        None => b.included is None,
    }
    &&& properties_match(a.properties.entries@, b.properties.entries@, f)
    &&& match a.reverse_properties {
        Some(x) => b.reverse_properties matches Some(y) && reverse_properties_match(
            x.entries@,
            y.entries@,
            f,
        ),
        None => b.reverse_properties is None,
    }
}

/// An equivalence is difunctional.
pub proof fn lemma_eq_difunctional<T: PartialEq>(a: T, b: T, c: T, d: T)
    requires
        obeys_eq::<T>(),
        a.eq_spec(&b),
        c.eq_spec(&d),
        a.eq_spec(&d),
    ensures
        c.eq_spec(&b),
{
    reveal(obeys_eq_spec_properties);
    assert(d.eq_spec(&a));
    assert(c.eq_spec(&a));
}

/// Identifiers equal to a common identifier are equal to the same identifiers.
pub proof fn lemma_id_difunctional<T: PartialEq, B: PartialEq>(
    a: Id<T, B>,
    b: Id<T, B>,
    c: Id<T, B>,
    d: Id<T, B>,
    f: spec_fn(B) -> B,
)
    requires
        obeys_eq::<T>(),
        obeys_eq::<B>(),
        id_matches(a, b, f),
        id_matches(c, d, f),
        id_matches(a, d, f),
    ensures
        id_matches(c, b, f),
{
    match (a, b, c, d) {
        (
            Id::Valid(ValidId::Iri(x)),
            Id::Valid(ValidId::Iri(y)),
            Id::Valid(ValidId::Iri(z)),
            Id::Valid(ValidId::Iri(w)),
        ) => {
            lemma_eq_difunctional(x, y, z, w);
        },
        (
            Id::Valid(ValidId::Blank(x)),
            Id::Valid(ValidId::Blank(y)),
            Id::Valid(ValidId::Blank(z)),
            Id::Valid(ValidId::Blank(w)),
        ) => {
            lemma_eq_difunctional(f(x), y, f(z), w);
        },
        _ => {},
    }
}

/// Collections equal to a common one, whatever their order, are equal to the same ones.
pub proof fn lemma_unordered_difunctional<A: MappedEq>(
    xa: Seq<A>,
    xb: Seq<A>,
    xc: Seq<A>,
    xd: Seq<A>,
    f: spec_fn(A::BlankId) -> A::BlankId,
)
    requires
        A::obeys_mapped_eq(),
        unordered_matches(xa, xb, f),
        unordered_matches(xc, xd, f),
        unordered_matches(xa, xd, f),
    ensures
        unordered_matches(xc, xb, f),
{
    let n = xa.len() as int;
    let ab = item_pairs(xa, xb, f);
    let cd = item_pairs(xc, xd, f);
    let ad = item_pairs(xa, xd, f);
    let cb = item_pairs(xc, xb, f);
    assert forall|i: int, j: int, k: int, l: int|
        0 <= i < n && 0 <= j < n && 0 <= k < n && 0 <= l < n && #[trigger] ab(i, j) && #[trigger] cd(
            k,
            l,
        ) && ad(i, l) implies cb(k, j) by {
        A::lemma_mapped_eq_difunctional(&xa[i], &xb[j], &xc[k], &xd[l], f);
    }
    lemma_pairs_up_transfer(n, ab, cd, ad, cb);
}

/// Values equal to a common value are equal to the same values.
pub proof fn lemma_value_difunctional<T: PartialEq>(a: Value<T>, b: Value<T>, c: Value<T>, d: Value<T>)
    requires
        obeys_eq::<T>(),
        value_matches(a, b),
        value_matches(c, d),
        value_matches(a, d),
    ensures
        value_matches(c, b),
{
    match (a.ty, b.ty, c.ty, d.ty) {
        (Some(x), Some(y), Some(z), Some(w)) => {
            lemma_eq_difunctional(x, y, z, w);
        },
        _ => {},
    }
}

/// Objects equal to a common object are equal to the same objects.
pub proof fn lemma_object_difunctional<T: PartialEq, B: PartialEq>(
    a: Object<T, B>,
    b: Object<T, B>,
    c: Object<T, B>,
    d: Object<T, B>,
    f: spec_fn(B) -> B,
)
    requires
        obeys_eq::<T>(),
        obeys_eq::<B>(),
        object_matches(a, b, f),
        object_matches(c, d, f),
        object_matches(a, d, f),
    ensures
        object_matches(c, b, f),
    decreases a,
{
    match (a, b, c, d) {
        (Object::Value(x), Object::Value(y), Object::Value(z), Object::Value(w)) => {
            lemma_value_difunctional(x, y, z, w);
        },
        (Object::Node(x), Object::Node(y), Object::Node(z), Object::Node(w)) => {
            lemma_node_difunctional(x, y, z, w, f);
        },
        (Object::List(x), Object::List(y), Object::List(z), Object::List(w)) => {
            lemma_list_difunctional(x.items@, y.items@, z.items@, w.items@, f);
        },
        _ => {},
    }
}

/// Indexed objects equal to a common one are equal to the same ones.
pub proof fn lemma_indexed_object_difunctional<T: PartialEq, B: PartialEq>(
    a: Indexed<Object<T, B>>,
    b: Indexed<Object<T, B>>,
    c: Indexed<Object<T, B>>,
    d: Indexed<Object<T, B>>,
    f: spec_fn(B) -> B,
)
    requires
        obeys_eq::<T>(),
        obeys_eq::<B>(),
        indexed_object_matches(a, b, f),
        indexed_object_matches(c, d, f),
        indexed_object_matches(a, d, f),
    ensures
        indexed_object_matches(c, b, f),
    decreases a,
{
    lemma_object_difunctional(a.inner, b.inner, c.inner, d.inner, f);
}

/// Indexed nodes equal to a common one are equal to the same ones.
pub proof fn lemma_indexed_node_difunctional<T: PartialEq, B: PartialEq>(
    a: Indexed<Node<T, B>>,
    b: Indexed<Node<T, B>>,
    c: Indexed<Node<T, B>>,
    d: Indexed<Node<T, B>>,
    f: spec_fn(B) -> B,
)
    requires
        obeys_eq::<T>(),
        obeys_eq::<B>(),
        indexed_node_matches(a, b, f),
        indexed_node_matches(c, d, f),
        indexed_node_matches(a, d, f),
    ensures
        indexed_node_matches(c, b, f),
    decreases a,
{
    lemma_node_difunctional(a.inner, b.inner, c.inner, d.inner, f);
}

/// Lists equal to a common list are equal to the same lists.
pub proof fn lemma_list_difunctional<T: PartialEq, B: PartialEq>(
    xa: Seq<Indexed<Object<T, B>>>,
    xb: Seq<Indexed<Object<T, B>>>,
    xc: Seq<Indexed<Object<T, B>>>,
    xd: Seq<Indexed<Object<T, B>>>,
    f: spec_fn(B) -> B,
)
    requires
        obeys_eq::<T>(),
        obeys_eq::<B>(),
        list_matches(xa, xb, f),
        list_matches(xc, xd, f),
        list_matches(xa, xd, f),
    ensures
        list_matches(xc, xb, f),
    decreases xa,
{
    assert forall|i: int| 0 <= i < xc.len() implies indexed_object_matches(#[trigger] xc[i], xb[i], f) by {
        assert(indexed_object_matches(xa[i], xb[i], f));
        assert(indexed_object_matches(xa[i], xd[i], f));
        lemma_indexed_object_difunctional(xa[i], xb[i], xc[i], xd[i], f);
    }
}

/// Collections of objects equal to a common one are equal to the same ones.
pub proof fn lemma_objects_difunctional<T: PartialEq, B: PartialEq>(
    xa: Seq<Indexed<Object<T, B>>>,
    xb: Seq<Indexed<Object<T, B>>>,
    xc: Seq<Indexed<Object<T, B>>>,
    xd: Seq<Indexed<Object<T, B>>>,
    f: spec_fn(B) -> B,
)
    requires
        obeys_eq::<T>(),
        obeys_eq::<B>(),
        objects_match(xa, xb, f),
        objects_match(xc, xd, f),
        objects_match(xa, xd, f),
    ensures
        objects_match(xc, xb, f),
    decreases xa,
{
    let n = xa.len() as int;
    let ab = object_pairs(xa, xb, f);
    let cd = object_pairs(xc, xd, f);
    let ad = object_pairs(xa, xd, f);
    let cb = object_pairs(xc, xb, f);
    assert forall|i: int, j: int, k: int, l: int|
        0 <= i < n && 0 <= j < n && 0 <= k < n && 0 <= l < n && #[trigger] ab(i, j) && #[trigger] cd(
            k,
            l,
        ) && ad(i, l) implies cb(k, j) by {
        lemma_indexed_object_difunctional(xa[i], xb[j], xc[k], xd[l], f);
    }
    lemma_pairs_up_transfer(n, ab, cd, ad, cb);
}

/// Collections of nodes equal to a common one are equal to the same ones.
pub proof fn lemma_nodes_difunctional<T: PartialEq, B: PartialEq>(
    xa: Seq<Indexed<Node<T, B>>>,
    xb: Seq<Indexed<Node<T, B>>>,
    xc: Seq<Indexed<Node<T, B>>>,
    xd: Seq<Indexed<Node<T, B>>>,
    f: spec_fn(B) -> B,
)
    requires
        obeys_eq::<T>(),
        obeys_eq::<B>(),
        nodes_match(xa, xb, f),
        nodes_match(xc, xd, f),
        nodes_match(xa, xd, f),
    ensures
        nodes_match(xc, xb, f),
    decreases xa,
{
    let n = xa.len() as int;
    let ab = node_pairs(xa, xb, f);
    let cd = node_pairs(xc, xd, f);
    let ad = node_pairs(xa, xd, f);
    let cb = node_pairs(xc, xb, f);
    assert forall|i: int, j: int, k: int, l: int|
        0 <= i < n && 0 <= j < n && 0 <= k < n && 0 <= l < n && #[trigger] ab(i, j) && #[trigger] cd(
            k,
            l,
        ) && ad(i, l) implies cb(k, j) by {
        lemma_indexed_node_difunctional(xa[i], xb[j], xc[k], xd[l], f);
    }
    lemma_pairs_up_transfer(n, ab, cd, ad, cb);
}

/// Properties equal to common ones are equal to the same ones.
pub proof fn lemma_properties_difunctional<T: PartialEq, B: PartialEq>(
    xa: Seq<PropertyEntry<T, B>>,
    xb: Seq<PropertyEntry<T, B>>,
    xc: Seq<PropertyEntry<T, B>>,
    xd: Seq<PropertyEntry<T, B>>,
    f: spec_fn(B) -> B,
)
    requires
        obeys_eq::<T>(),
        obeys_eq::<B>(),
        properties_match(xa, xb, f),
        properties_match(xc, xd, f),
        properties_match(xa, xd, f),
    ensures
        properties_match(xc, xb, f),
    decreases xa,
{
    let n = xa.len() as int;
    let ab = property_pairs(xa, xb, f);
    let cd = property_pairs(xc, xd, f);
    let ad = property_pairs(xa, xd, f);
    let cb = property_pairs(xc, xb, f);
    assert forall|i: int, j: int, k: int, l: int|
        0 <= i < n && 0 <= j < n && 0 <= k < n && 0 <= l < n && #[trigger] ab(i, j) && #[trigger] cd(
            k,
            l,
        ) && ad(i, l) implies cb(k, j) by {
        lemma_id_difunctional(xa[i].property, xb[j].property, xc[k].property, xd[l].property, f);
        lemma_objects_difunctional(xa[i].objects@, xb[j].objects@, xc[k].objects@, xd[l].objects@, f);
    }
    lemma_pairs_up_transfer(n, ab, cd, ad, cb);
}

/// Reverse properties equal to common ones are equal to the same ones.
pub proof fn lemma_reverse_properties_difunctional<T: PartialEq, B: PartialEq>(
    xa: Seq<ReversePropertyEntry<T, B>>,
    xb: Seq<ReversePropertyEntry<T, B>>,
    xc: Seq<ReversePropertyEntry<T, B>>,
    xd: Seq<ReversePropertyEntry<T, B>>,
    f: spec_fn(B) -> B,
)
    requires
        obeys_eq::<T>(),
        obeys_eq::<B>(),
        reverse_properties_match(xa, xb, f),
        reverse_properties_match(xc, xd, f),
        reverse_properties_match(xa, xd, f),
    ensures
        reverse_properties_match(xc, xb, f),
    decreases xa,
{
    let n = xa.len() as int;
    let ab = reverse_property_pairs(xa, xb, f);
    let cd = reverse_property_pairs(xc, xd, f);
    let ad = reverse_property_pairs(xa, xd, f);
    let cb = reverse_property_pairs(xc, xb, f);
    assert forall|i: int, j: int, k: int, l: int|
        0 <= i < n && 0 <= j < n && 0 <= k < n && 0 <= l < n && #[trigger] ab(i, j) && #[trigger] cd(
            k,
            l,
        ) && ad(i, l) implies cb(k, j) by {
        lemma_id_difunctional(xa[i].property, xb[j].property, xc[k].property, xd[l].property, f);
        lemma_nodes_difunctional(xa[i].nodes@, xb[j].nodes@, xc[k].nodes@, xd[l].nodes@, f);
    }
    lemma_pairs_up_transfer(n, ab, cd, ad, cb);
}

/// Nodes equal to a common node are equal to the same nodes.
pub proof fn lemma_node_difunctional<T: PartialEq, B: PartialEq>(
    a: Node<T, B>,
    b: Node<T, B>,
    c: Node<T, B>,
    d: Node<T, B>,
    f: spec_fn(B) -> B,
)
    requires
        obeys_eq::<T>(),
        obeys_eq::<B>(),
        node_matches(a, b, f),
        node_matches(c, d, f),
        node_matches(a, d, f),
    ensures
        node_matches(c, b, f),
    decreases a,
{
    match (a.id, b.id, c.id, d.id) {
        (Some(x), Some(y), Some(z), Some(w)) => {
            lemma_id_difunctional(x, y, z, w, f);
        },
        _ => {},
    }
    match (a.types, b.types, c.types, d.types) {
        (Some(x), Some(y), Some(z), Some(w)) => {
            lemma_unordered_difunctional::<Id<T, B>>(x@, y@, z@, w@, f);
        },
        _ => {},
    }
    match (a.graph, b.graph, c.graph, d.graph) {
        (Some(x), Some(y), Some(z), Some(w)) => {
            lemma_objects_difunctional(x@, y@, z@, w@, f);
        },
        _ => {},
    }
    match (a.included, b.included, c.included, d.included) {
        (Some(x), Some(y), Some(z), Some(w)) => {
            lemma_nodes_difunctional(x@, y@, z@, w@, f);
        },
        _ => {},
    }
    lemma_properties_difunctional(
        a.properties.entries@,
        b.properties.entries@,
        c.properties.entries@,
        d.properties.entries@,
        f,
    );
    match (a.reverse_properties, b.reverse_properties, c.reverse_properties, d.reverse_properties) {
        (Some(x), Some(y), Some(z), Some(w)) => {
            lemma_reverse_properties_difunctional(x.entries@, y.entries@, z.entries@, w.entries@, f);
        },
        _ => {},
    }
}

/// Whether equality on both identifier types is an equivalence that `==` decides.
pub open spec fn obeys_id_eq<T: PartialEq, B: PartialEq>() -> bool {
    obeys_eq::<T>() && obeys_eq::<B>()
}

/// Compares two identifiers that name nodes, the labels of blank nodes taken through `f`.
pub fn valid_id_mapped_eq<'a, 'b, T: PartialEq, B: PartialEq + 'a + 'b, F: Fn(&'a B) -> &'b B>(
    a: &'a ValidId<T, B>,
    b: &ValidId<T, B>,
    f: &F,
) -> (r: bool)
    requires
        is_renaming(*f),
    ensures
        obeys_id_eq::<T, B>() ==> r == valid_id_matches(*a, *b, renaming(*f)),
{
    match (a, b) {
        (ValidId::Blank(x), ValidId::Blank(y)) => *rename(f, x) == *y,
        (ValidId::Iri(x), ValidId::Iri(y)) => *x == *y,
        _ => false,
    }
}

/// Compares two identifiers, the labels of blank nodes taken through `f`.
pub fn id_mapped_eq<'a, 'b, T: PartialEq, B: PartialEq + 'a + 'b, F: Fn(&'a B) -> &'b B>(
    a: &'a Id<T, B>,
    b: &Id<T, B>,
    f: &F,
) -> (r: bool)
    requires
        is_renaming(*f),
    ensures
        obeys_id_eq::<T, B>() ==> r == id_matches(*a, *b, renaming(*f)),
{
    match (a, b) {
        (Id::Valid(x), Id::Valid(y)) => valid_id_mapped_eq(x, y, f),
        (Id::Invalid(x), Id::Invalid(y)) => *x == *y,
        _ => false,
    }
}

/// Compares two literal values.
pub fn value_mapped_eq<T: PartialEq>(a: &Value<T>, b: &Value<T>) -> (r: bool)
    ensures
        obeys_eq::<T>() ==> r == value_matches(*a, *b),
{
    let same_ty = match (&a.ty, &b.ty) {
        (Some(x), Some(y)) => *x == *y,
        (None, None) => true,
        _ => false,
    };
    let same_direction = match (&a.direction, &b.direction) {
        (Some(x), Some(y)) => *x == *y,
        (None, None) => true,
        _ => false,
    };
    a.literal.same(&b.literal) && same_ty && same_text(&a.language, &b.language) && same_direction
}

/// Compares two objects, the labels of blank nodes taken through `f`.
pub fn object_mapped_eq<'a, 'b, T: PartialEq, B: PartialEq + 'a + 'b, F: Fn(&'a B) -> &'b B>(
    a: &'a Object<T, B>,
    b: &Object<T, B>,
    f: &F,
) -> (r: bool)
    requires
        is_renaming(*f),
    ensures
        obeys_id_eq::<T, B>() ==> r == object_matches(*a, *b, renaming(*f)),
    decreases a,
{
    match (a, b) {
        (Object::Value(x), Object::Value(y)) => value_mapped_eq(x, y),
        (Object::Node(x), Object::Node(y)) => node_mapped_eq(x, y, f),
        (Object::List(x), Object::List(y)) => list_mapped_eq(&x.items, &y.items, f),
        _ => false,
    }
}

/// Compares two indexed objects.
pub fn indexed_object_mapped_eq<'a, 'b, T: PartialEq, B: PartialEq + 'a + 'b, F: Fn(&'a B) -> &'b B>(
    a: &'a Indexed<Object<T, B>>,
    b: &Indexed<Object<T, B>>,
    f: &F,
) -> (r: bool)
    requires
        is_renaming(*f),
    ensures
        obeys_id_eq::<T, B>() ==> r == indexed_object_matches(*a, *b, renaming(*f)),
    decreases a,
{
    same_text(&a.index, &b.index) && object_mapped_eq(&a.inner, &b.inner, f)
}

/// Compares two indexed nodes.
pub fn indexed_node_mapped_eq<'a, 'b, T: PartialEq, B: PartialEq + 'a + 'b, F: Fn(&'a B) -> &'b B>(
    a: &'a Indexed<Node<T, B>>,
    b: &Indexed<Node<T, B>>,
    f: &F,
) -> (r: bool)
    requires
        is_renaming(*f),
    ensures
        obeys_id_eq::<T, B>() ==> r == indexed_node_matches(*a, *b, renaming(*f)),
    decreases a,
{
    same_text(&a.index, &b.index) && node_mapped_eq(&a.inner, &b.inner, f)
}

/// Compares two lists position by position.
pub fn list_mapped_eq<'a, 'b, T: PartialEq, B: PartialEq + 'a + 'b, F: Fn(&'a B) -> &'b B>(
    xs: &'a Vec<Indexed<Object<T, B>>>,
    ys: &Vec<Indexed<Object<T, B>>>,
    f: &F,
) -> (r: bool)
    requires
        is_renaming(*f),
    ensures
        obeys_id_eq::<T, B>() ==> r == list_matches(xs@, ys@, renaming(*f)),
    decreases xs,
{
    if xs.len() != ys.len() {
        return false;
    }
    let mut i: usize = 0;
    while i < xs.len()
        invariant
            i <= xs.len(),
            xs.len() == ys.len(),
            is_renaming(*f),
            obeys_id_eq::<T, B>() ==> forall|k: int|
                0 <= k < i ==> indexed_object_matches(#[trigger] xs@[k], ys@[k], renaming(*f)),
        decreases xs.len() - i,
    {
        if !indexed_object_mapped_eq(&xs[i], &ys[i], f) {
            return false;
        }
        i = i + 1;
    }
    true
}

/// Compares two collections of objects, whatever their order.
pub fn objects_mapped_eq<'a, 'b, T: PartialEq, B: PartialEq + 'a + 'b, F: Fn(&'a B) -> &'b B>(
    xs: &'a Vec<Indexed<Object<T, B>>>,
    ys: &Vec<Indexed<Object<T, B>>>,
    f: &F,
) -> (r: bool)
    requires
        is_renaming(*f),
    ensures
        obeys_id_eq::<T, B>() ==> r == objects_match(xs@, ys@, renaming(*f)),
    decreases xs,
{
    if xs.len() != ys.len() {
        return false;
    }
    let ghost fs = renaming(*f);
    let ghost rel = object_pairs(xs@, ys@, fs);
    let related = |i: usize, j: usize| -> (b: bool)
        requires
            i < xs.len(),
            j < ys.len(),
        ensures
            obeys_id_eq::<T, B>() ==> b == rel(i as int, j as int),
        { indexed_object_mapped_eq(&xs[i], &ys[j], f) };
    proof {
        if obeys_id_eq::<T, B>() {
            assert forall|i: int, k: int, j: int, l: int|
                0 <= i < xs.len() && 0 <= k < xs.len() && 0 <= j < xs.len() && 0 <= l < xs.len()
                    && #[trigger] rel(i, j) && #[trigger] rel(k, l) && rel(i, l) implies rel(k, j) by {
                lemma_indexed_object_difunctional(xs@[i], ys@[j], xs@[k], ys@[l], fs);
            }
        }
    }
    find_pairing(xs.len(), &related, Ghost(rel), Ghost(obeys_id_eq::<T, B>()))
}

/// Compares two optional values.
pub fn opt_mapped_eq<'a, 'b, A: MappedEq, F: Fn(&'a A::BlankId) -> &'b A::BlankId>(
    a: Option<&'a A>,
    b: Option<&A>,
    f: &F,
) -> (r: bool) where A::BlankId: 'a + 'b
    requires
        is_renaming(*f),
    ensures
        A::obeys_mapped_eq() ==> r == match (a, b) {
            (Some(x), Some(y)) => x.mapped_eq_spec(y, renaming(*f)),
            (None, None) => true,
            _ => false,
        },
{
    match (a, b) {
        (Some(a), Some(b)) => a.mapped_eq(b, f),
        (None, None) => true,
        _ => false,
    }
}

/// Compares two collections, whatever their order.
///
/// Each item of `xs` in turn takes the first item of `ys` that equals it and
/// that no earlier item took.
pub fn unordered_mapped_eq<'a, 'b, A: MappedEq, F: Fn(&'a A::BlankId) -> &'b A::BlankId>(
    xs: &'a Vec<A>,
    ys: &Vec<A>,
    f: &F,
) -> (r: bool) where A::BlankId: 'a + 'b
    requires
        is_renaming(*f),
    ensures
        A::obeys_mapped_eq() ==> r == unordered_matches(xs@, ys@, renaming(*f)),
{
    if xs.len() != ys.len() {
        return false;
    }
    let ghost fs = renaming(*f);
    let ghost rel = item_pairs(xs@, ys@, fs);
    let related = |i: usize, j: usize| -> (b: bool)
        requires
            i < xs.len(),
            j < ys.len(),
        ensures
            A::obeys_mapped_eq() ==> b == rel(i as int, j as int),
        { xs[i].mapped_eq(&ys[j], f) };
    proof {
        if A::obeys_mapped_eq() {
            assert forall|i: int, k: int, j: int, l: int|
                0 <= i < xs.len() && 0 <= k < xs.len() && 0 <= j < xs.len() && 0 <= l < xs.len()
                    && #[trigger] rel(i, j) && #[trigger] rel(k, l) && rel(i, l) implies rel(k, j) by {
                A::lemma_mapped_eq_difunctional(&xs@[i], &ys@[j], &xs@[k], &ys@[l], fs);
            }
        }
    }
    find_pairing(xs.len(), &related, Ghost(rel), Ghost(A::obeys_mapped_eq()))
}

/// Compares two collections of nodes, whatever their order.
pub fn nodes_mapped_eq<'a, 'b, T: PartialEq, B: PartialEq + 'a + 'b, F: Fn(&'a B) -> &'b B>(
    xs: &'a Vec<Indexed<Node<T, B>>>,
    ys: &Vec<Indexed<Node<T, B>>>,
    f: &F,
) -> (r: bool)
    requires
        is_renaming(*f),
    ensures
        obeys_id_eq::<T, B>() ==> r == nodes_match(xs@, ys@, renaming(*f)),
    decreases xs,
{
    if xs.len() != ys.len() {
        return false;
    }
    let ghost fs = renaming(*f);
    let ghost rel = node_pairs(xs@, ys@, fs);
    let related = |i: usize, j: usize| -> (b: bool)
        requires
            i < xs.len(),
            j < ys.len(),
        ensures
            obeys_id_eq::<T, B>() ==> b == rel(i as int, j as int),
        { indexed_node_mapped_eq(&xs[i], &ys[j], f) };
    proof {
        if obeys_id_eq::<T, B>() {
            assert forall|i: int, k: int, j: int, l: int|
                0 <= i < xs.len() && 0 <= k < xs.len() && 0 <= j < xs.len() && 0 <= l < xs.len()
                    && #[trigger] rel(i, j) && #[trigger] rel(k, l) && rel(i, l) implies rel(k, j) by {
                lemma_indexed_node_difunctional(xs@[i], ys@[j], xs@[k], ys@[l], fs);
            }
        }
    }
    find_pairing(xs.len(), &related, Ghost(rel), Ghost(obeys_id_eq::<T, B>()))
}

/// Compares the entries of two properties.
pub fn property_mapped_eq<'a, 'b, T: PartialEq, B: PartialEq + 'a + 'b, F: Fn(&'a B) -> &'b B>(
    a: &'a PropertyEntry<T, B>,
    b: &PropertyEntry<T, B>,
    f: &F,
) -> (r: bool)
    requires
        is_renaming(*f),
    ensures
        obeys_id_eq::<T, B>() ==> r == property_matches(*a, *b, renaming(*f)),
    decreases a,
{
    id_mapped_eq(&a.property, &b.property, f) && objects_mapped_eq(&a.objects, &b.objects, f)
}

/// Compares the properties of two nodes, whatever their order.
pub fn properties_mapped_eq<'a, 'b, T: PartialEq, B: PartialEq + 'a + 'b, F: Fn(&'a B) -> &'b B>(
    xs: &'a Vec<PropertyEntry<T, B>>,
    ys: &Vec<PropertyEntry<T, B>>,
    f: &F,
) -> (r: bool)
    requires
        is_renaming(*f),
    ensures
        obeys_id_eq::<T, B>() ==> r == properties_match(xs@, ys@, renaming(*f)),
    decreases xs,
{
    if xs.len() != ys.len() {
        return false;
    }
    let ghost fs = renaming(*f);
    let ghost rel = property_pairs(xs@, ys@, fs);
    let related = |i: usize, j: usize| -> (b: bool)
        requires
            i < xs.len(),
            j < ys.len(),
        ensures
            obeys_id_eq::<T, B>() ==> b == rel(i as int, j as int),
        { property_mapped_eq(&xs[i], &ys[j], f) };
    proof {
        if obeys_id_eq::<T, B>() {
            assert forall|i: int, k: int, j: int, l: int|
                0 <= i < xs.len() && 0 <= k < xs.len() && 0 <= j < xs.len() && 0 <= l < xs.len()
                    && #[trigger] rel(i, j) && #[trigger] rel(k, l) && rel(i, l) implies rel(k, j) by {
                lemma_id_difunctional(xs@[i].property, ys@[j].property, xs@[k].property, ys@[l].property, fs);
                lemma_objects_difunctional(
                    xs@[i].objects@,
                    ys@[j].objects@,
                    xs@[k].objects@,
                    ys@[l].objects@,
                    fs,
                );
            }
        }
    }
    find_pairing(xs.len(), &related, Ghost(rel), Ghost(obeys_id_eq::<T, B>()))
}

/// Compares the entries of two reverse properties.
pub fn reverse_property_mapped_eq<'a, 'b, T: PartialEq, B: PartialEq + 'a + 'b, F: Fn(&'a B) -> &'b B>(
    a: &'a ReversePropertyEntry<T, B>,
    b: &ReversePropertyEntry<T, B>,
    f: &F,
) -> (r: bool)
    requires
        is_renaming(*f),
    ensures
        obeys_id_eq::<T, B>() ==> r == reverse_property_matches(*a, *b, renaming(*f)),
    decreases a,
{
    id_mapped_eq(&a.property, &b.property, f) && nodes_mapped_eq(&a.nodes, &b.nodes, f)
}

/// Compares the reverse properties of two nodes, whatever their order.
pub fn reverse_properties_mapped_eq<'a, 'b, T: PartialEq, B: PartialEq + 'a + 'b, F: Fn(&'a B) -> &'b B>(
    xs: &'a Vec<ReversePropertyEntry<T, B>>,
    ys: &Vec<ReversePropertyEntry<T, B>>,
    f: &F,
) -> (r: bool)
    requires
        is_renaming(*f),
    ensures
        obeys_id_eq::<T, B>() ==> r == reverse_properties_match(xs@, ys@, renaming(*f)),
    decreases xs,
{
    if xs.len() != ys.len() {
        return false;
    }
    let ghost fs = renaming(*f);
    let ghost rel = reverse_property_pairs(xs@, ys@, fs);
    let related = |i: usize, j: usize| -> (b: bool)
        requires
            i < xs.len(),
            j < ys.len(),
        ensures
            obeys_id_eq::<T, B>() ==> b == rel(i as int, j as int),
        { reverse_property_mapped_eq(&xs[i], &ys[j], f) };
    proof {
        if obeys_id_eq::<T, B>() {
            assert forall|i: int, k: int, j: int, l: int|
                0 <= i < xs.len() && 0 <= k < xs.len() && 0 <= j < xs.len() && 0 <= l < xs.len()
                    && #[trigger] rel(i, j) && #[trigger] rel(k, l) && rel(i, l) implies rel(k, j) by {
                lemma_id_difunctional(xs@[i].property, ys@[j].property, xs@[k].property, ys@[l].property, fs);
                lemma_nodes_difunctional(xs@[i].nodes@, ys@[j].nodes@, xs@[k].nodes@, ys@[l].nodes@, fs);
            }
        }
    }
    find_pairing(xs.len(), &related, Ghost(rel), Ghost(obeys_id_eq::<T, B>()))
}

/// Compares two nodes, the labels of blank nodes taken through `f`.
pub fn node_mapped_eq<'a, 'b, T: PartialEq, B: PartialEq + 'a + 'b, F: Fn(&'a B) -> &'b B>(
    a: &'a Node<T, B>,
    b: &Node<T, B>,
    f: &F,
) -> (r: bool)
    requires
        is_renaming(*f),
    ensures
        obeys_id_eq::<T, B>() ==> r == node_matches(*a, *b, renaming(*f)),
    decreases a,
{
    let same_id = opt_mapped_eq(a.id.as_ref(), b.id.as_ref(), f);
    let same_types = match (&a.types, &b.types) {
        (Some(x), Some(y)) => unordered_mapped_eq(x, y, f),
        (None, None) => true,
        _ => false,
    };
    if !same_id || !same_types {
        return false;
    }
    let same_graph = match (&a.graph, &b.graph) {
        (Some(x), Some(y)) => objects_mapped_eq(x, y, f),
        (None, None) => true,
        _ => false,
    };
    if !same_graph {
        return false;
    }
    let same_included = match (&a.included, &b.included) {
        (Some(x), Some(y)) => nodes_mapped_eq(x, y, f),
        (None, None) => true,
        _ => false,
    };
    if !same_included {
        return false;
    }
    if !properties_mapped_eq(&a.properties.entries, &b.properties.entries, f) {
        return false;
    }
    match (&a.reverse_properties, &b.reverse_properties) {
        (Some(x), Some(y)) => reverse_properties_mapped_eq(&x.entries, &y.entries, f),
        (None, None) => true,
        _ => false,
    }
}

/// Structural equality with mapped blank identifiers.
pub trait MappedEq: Sized {
    /// The type of blank node labels.
    type BlankId;

    /// Whether equality on the identifier types is an equivalence that `==` decides.
    spec fn obeys_mapped_eq() -> bool;

    /// Whether `self` and `other` are equal once the blank node labels of `self` went through `f`.
    spec fn mapped_eq_spec(&self, other: &Self, f: spec_fn(Self::BlankId) -> Self::BlankId) -> bool;

    /// Values equal to a common value are equal to the same values.
    proof fn lemma_mapped_eq_difunctional(
        a: &Self,
        b: &Self,
        c: &Self,
        d: &Self,
        f: spec_fn(Self::BlankId) -> Self::BlankId,
    )
        requires
            Self::obeys_mapped_eq(),
            a.mapped_eq_spec(b, f),
            c.mapped_eq_spec(d, f),
            a.mapped_eq_spec(d, f),
        ensures
            c.mapped_eq_spec(b, f),
    ;

    /// Structural equality with mapped blank identifiers.
    ///
    /// Does not care for metadata.
    fn mapped_eq<'a, 'b, F: Fn(&'a Self::BlankId) -> &'b Self::BlankId>(&'a self, other: &Self, f: &F) -> (r:
        bool) where Self::BlankId: 'a + 'b
        requires
            is_renaming(*f),
        ensures
            Self::obeys_mapped_eq() ==> r == self.mapped_eq_spec(other, renaming(*f)),
    ;
}

impl<T: PartialEq, B: PartialEq> MappedEq for ValidId<T, B> {
    type BlankId = B;

    open spec fn obeys_mapped_eq() -> bool {
        obeys_eq::<T>() && obeys_eq::<B>()
    }

    open spec fn mapped_eq_spec(&self, other: &Self, f: spec_fn(B) -> B) -> bool {
        valid_id_matches(*self, *other, f)
    }

    proof fn lemma_mapped_eq_difunctional(a: &Self, b: &Self, c: &Self, d: &Self, f: spec_fn(B) -> B) {
        reveal(obeys_eq_spec_properties);
    }

    fn mapped_eq<'a, 'b, F: Fn(&'a B) -> &'b B>(&'a self, other: &Self, f: &F) -> (r: bool) where B: 'a + 'b {
        valid_id_mapped_eq(self, other, f)
    }
}

impl<T: PartialEq, B: PartialEq> MappedEq for Id<T, B> {
    type BlankId = B;

    open spec fn obeys_mapped_eq() -> bool {
        obeys_eq::<T>() && obeys_eq::<B>()
    }

    open spec fn mapped_eq_spec(&self, other: &Self, f: spec_fn(B) -> B) -> bool {
        id_matches(*self, *other, f)
    }

    proof fn lemma_mapped_eq_difunctional(a: &Self, b: &Self, c: &Self, d: &Self, f: spec_fn(B) -> B) {
        reveal(obeys_eq_spec_properties);
    }

    fn mapped_eq<'a, 'b, F: Fn(&'a B) -> &'b B>(&'a self, other: &Self, f: &F) -> (r: bool) where B: 'a + 'b {
        id_mapped_eq(self, other, f)
    }
}

impl<A: MappedEq> MappedEq for Option<A> {
    type BlankId = A::BlankId;

    open spec fn obeys_mapped_eq() -> bool {
        A::obeys_mapped_eq()
    }

    open spec fn mapped_eq_spec(&self, other: &Self, f: spec_fn(A::BlankId) -> A::BlankId) -> bool {
        optional_matches(*self, *other, f)
    }

    proof fn lemma_mapped_eq_difunctional(
        a: &Self,
        b: &Self,
        c: &Self,
        d: &Self,
        f: spec_fn(A::BlankId) -> A::BlankId,
    ) {
        match (a, b, c, d) {
            (Some(x), Some(y), Some(z), Some(w)) => {
                A::lemma_mapped_eq_difunctional(x, y, z, w, f);
            },
            _ => {},
        }
    }

    fn mapped_eq<'a, 'b, F: Fn(&'a A::BlankId) -> &'b A::BlankId>(&'a self, other: &Self, f: &F) -> (r:
        bool) where A::BlankId: 'a + 'b {
        match (self, other) {
            (Some(a), Some(b)) => a.mapped_eq(b, f),
            (None, None) => true,
            _ => false,
        }
    }
}

impl<A: MappedEq> MappedEq for Vec<A> {
    type BlankId = A::BlankId;

    open spec fn obeys_mapped_eq() -> bool {
        A::obeys_mapped_eq()
    }

    open spec fn mapped_eq_spec(&self, other: &Self, f: spec_fn(A::BlankId) -> A::BlankId) -> bool {
        ordered_matches(self@, other@, f)
    }

    proof fn lemma_mapped_eq_difunctional(
        a: &Self,
        b: &Self,
        c: &Self,
        d: &Self,
        f: spec_fn(A::BlankId) -> A::BlankId,
    ) {
        assert forall|i: int| 0 <= i < c@.len() implies (#[trigger] c@[i]).mapped_eq_spec(&b@[i], f) by {
            assert(a@[i].mapped_eq_spec(&b@[i], f));
            assert(a@[i].mapped_eq_spec(&d@[i], f));
            A::lemma_mapped_eq_difunctional(&a@[i], &b@[i], &c@[i], &d@[i], f);
        }
    }

    fn mapped_eq<'a, 'b, F: Fn(&'a A::BlankId) -> &'b A::BlankId>(&'a self, other: &Self, f: &F) -> (r:
        bool) where A::BlankId: 'a + 'b {
        if self.len() != other.len() {
            return false;
        }
        let mut i: usize = 0;
        while i < self.len()
            invariant
                i <= self.len(),
                self.len() == other.len(),
                is_renaming(*f),
                A::obeys_mapped_eq() ==> forall|k: int|
                    0 <= k < i ==> (#[trigger] self@[k]).mapped_eq_spec(&other@[k], renaming(*f)),
            decreases self.len() - i,
        {
            if !self[i].mapped_eq(&other[i], f) {
                return false;
            }
            i = i + 1;
        }
        true
    }
}

impl<A: MappedEq> MappedEq for Indexed<A> {
    type BlankId = A::BlankId;

    open spec fn obeys_mapped_eq() -> bool {
        A::obeys_mapped_eq()
    }

    open spec fn mapped_eq_spec(&self, other: &Self, f: spec_fn(A::BlankId) -> A::BlankId) -> bool {
        text_of(self.index) == text_of(other.index) && self.inner.mapped_eq_spec(&other.inner, f)
    }

    proof fn lemma_mapped_eq_difunctional(
        a: &Self,
        b: &Self,
        c: &Self,
        d: &Self,
        f: spec_fn(A::BlankId) -> A::BlankId,
    ) {
        A::lemma_mapped_eq_difunctional(&a.inner, &b.inner, &c.inner, &d.inner, f);
    }

    fn mapped_eq<'a, 'b, F: Fn(&'a A::BlankId) -> &'b A::BlankId>(&'a self, other: &Self, f: &F) -> (r:
        bool) where A::BlankId: 'a + 'b {
        same_text(&self.index, &other.index) && self.inner.mapped_eq(&other.inner, f)
    }
}

impl<T: PartialEq, B: PartialEq> MappedEq for Object<T, B> {
    type BlankId = B;

    open spec fn obeys_mapped_eq() -> bool {
        obeys_id_eq::<T, B>()
    }

    open spec fn mapped_eq_spec(&self, other: &Self, f: spec_fn(B) -> B) -> bool {
        object_matches(*self, *other, f)
    }

    proof fn lemma_mapped_eq_difunctional(a: &Self, b: &Self, c: &Self, d: &Self, f: spec_fn(B) -> B) {
        lemma_object_difunctional(*a, *b, *c, *d, f);
    }

    fn mapped_eq<'a, 'b, F: Fn(&'a B) -> &'b B>(&'a self, other: &Self, f: &F) -> (r: bool) where B: 'a + 'b {
        object_mapped_eq(self, other, f)
    }
}

impl<T: PartialEq, B: PartialEq> MappedEq for Node<T, B> {
    type BlankId = B;

    open spec fn obeys_mapped_eq() -> bool {
        obeys_id_eq::<T, B>()
    }

    open spec fn mapped_eq_spec(&self, other: &Self, f: spec_fn(B) -> B) -> bool {
        node_matches(*self, *other, f)
    }

    proof fn lemma_mapped_eq_difunctional(a: &Self, b: &Self, c: &Self, d: &Self, f: spec_fn(B) -> B) {
        lemma_node_difunctional(*a, *b, *c, *d, f);
    }

    fn mapped_eq<'a, 'b, F: Fn(&'a B) -> &'b B>(&'a self, other: &Self, f: &F) -> (r: bool) where B: 'a + 'b {
        node_mapped_eq(self, other, f)
    }
}

impl<T: PartialEq, B: PartialEq> MappedEq for List<T, B> {
    type BlankId = B;

    open spec fn obeys_mapped_eq() -> bool {
        obeys_id_eq::<T, B>()
    }

    open spec fn mapped_eq_spec(&self, other: &Self, f: spec_fn(B) -> B) -> bool {
        list_matches(self.items@, other.items@, f)
    }

    proof fn lemma_mapped_eq_difunctional(a: &Self, b: &Self, c: &Self, d: &Self, f: spec_fn(B) -> B) {
        lemma_list_difunctional(a.items@, b.items@, c.items@, d.items@, f);
    }

    fn mapped_eq<'a, 'b, F: Fn(&'a B) -> &'b B>(&'a self, other: &Self, f: &F) -> (r: bool) where B: 'a + 'b {
        list_mapped_eq(&self.items, &other.items, f)
    }
}

impl<T: PartialEq, B: PartialEq> MappedEq for Properties<T, B> {
    type BlankId = B;

    open spec fn obeys_mapped_eq() -> bool {
        obeys_id_eq::<T, B>()
    }

    open spec fn mapped_eq_spec(&self, other: &Self, f: spec_fn(B) -> B) -> bool {
        properties_match(self.entries@, other.entries@, f)
    }

    proof fn lemma_mapped_eq_difunctional(a: &Self, b: &Self, c: &Self, d: &Self, f: spec_fn(B) -> B) {
        lemma_properties_difunctional(a.entries@, b.entries@, c.entries@, d.entries@, f);
    }

    fn mapped_eq<'a, 'b, F: Fn(&'a B) -> &'b B>(&'a self, other: &Self, f: &F) -> (r: bool) where B: 'a + 'b {
        properties_mapped_eq(&self.entries, &other.entries, f)
    }
}

impl<T: PartialEq, B: PartialEq> MappedEq for ReverseProperties<T, B> {
    type BlankId = B;

    open spec fn obeys_mapped_eq() -> bool {
        obeys_id_eq::<T, B>()
    }

    open spec fn mapped_eq_spec(&self, other: &Self, f: spec_fn(B) -> B) -> bool {
        reverse_properties_match(self.entries@, other.entries@, f)
    }

    proof fn lemma_mapped_eq_difunctional(a: &Self, b: &Self, c: &Self, d: &Self, f: spec_fn(B) -> B) {
        lemma_reverse_properties_difunctional(a.entries@, b.entries@, c.entries@, d.entries@, f);
    }

    fn mapped_eq<'a, 'b, F: Fn(&'a B) -> &'b B>(&'a self, other: &Self, f: &F) -> (r: bool) where B: 'a + 'b {
        reverse_properties_mapped_eq(&self.entries, &other.entries, f)
    }
}

} // verus!
