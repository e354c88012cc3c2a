//! Whether a document is sound, decided.

use vstd::prelude::*;
use vstd::string::*;

use crate::compaction::model::id_text;
use crate::expansion::nodes::check_bare;
use crate::iri::{BlankIdBuf, IriBuf};
use crate::object::id::{Id, ValidId};
use crate::object::indexed::Indexed;
use crate::object::model::{
    id_model, ids_model, indexed_node_model, indexed_object_model, node_model, nodes_model, object_model,
    objects_model, ObjectModel,
    properties_model, reverse_properties_model, value_model, NodeId,
};
use crate::object::node::{Node, Object, PropertyEntry, ReversePropertyEntry};
use crate::object::value::{Literal, Value};
use crate::round_trip::form::{
    all_stand_free, apart, is_wrapper, lemma_sound_list, lemma_sound_node, sound_document, sound_ids, sound_node,
    sound_nodes, sound_object, sound_objects, sound_properties, sound_reverse, sound_value, stands_free,
};
use crate::round_trip::names::{is_absolute, is_label, sound_id};
use crate::text::{find_char_from, text_eq};

verus! {

/// Whether an IRI is as every IRI is: it begins with a letter, and a colon ends its scheme.
pub fn is_absolute_iri(iri: &IriBuf) -> (r: bool)
    ensures
        r == is_absolute(iri@),
{
    let s = iri.as_str();
    if s.unicode_len() == 0 {
        return false;
    }
    let c = s.get_char(0);
    let letter = (c >= 'a' && c <= 'z') || (c >= 'A' && c <= 'Z');
    letter && find_char_from(s, ':', 1).is_some()
}

/// Whether a blank node label is as every label is: it begins with `_:`, and is no IRI.
pub fn is_proper_label(label: &BlankIdBuf) -> (r: bool)
    ensures
        r == is_label(label@),
{
    let s = label.as_str();
    if s.unicode_len() < 2 {
        return false;
    }
    s.get_char(0) == '_' && s.get_char(1) == ':' && IriBuf::from_str(s).is_none()
}

/// Whether an identifier is sound.
pub fn is_sound_id(id: &NodeId) -> (r: bool)
    ensures
        r == sound_id(id_model(*id)),
{
    match id {
        Id::Valid(ValidId::Iri(i)) => is_absolute_iri(i),
        Id::Valid(ValidId::Blank(b)) => is_proper_label(b),
        Id::Invalid(_) => false,
    }
}

/// The text of an identifier.
pub fn id_str(id: &NodeId) -> (r: &str)
    ensures
        r@ == id_text(id_model(*id)),
{
    match id {
        Id::Valid(ValidId::Iri(i)) => i.as_str(),
        Id::Valid(ValidId::Blank(b)) => b.as_str(),
        Id::Invalid(s) => s.as_str(),
    }
}

/// Whether the identifiers are sound.
pub fn are_sound_ids(ids: &Vec<NodeId>) -> (r: bool)
    ensures
        r == sound_ids(ids_model(ids@)),
{
    let mut k: usize = 0;
    while k < ids.len()
        invariant
            k <= ids.len(),
            forall|i: int| 0 <= i < k ==> sound_id(#[trigger] ids_model(ids@)[i]),
        decreases ids.len() - k,
    {
        if !is_sound_id(&ids[k]) {
            assert(!sound_id(ids_model(ids@)[k as int]));
            return false;
        }
        k = k + 1;
    }
    true
}

/// Whether a value is sound.
pub fn is_sound_value(v: &Value<IriBuf>) -> (r: bool)
    ensures
        r == sound_value(value_model(*v)),
{
    let text = match &v.literal {
        Literal::Text(_) => true,
        _ => false,
    };
    let typed = match &v.ty {
        Some(t) => is_absolute_iri(t) && v.language.is_none() && v.direction.is_none(),
        None => true,
    };
    typed && (v.language.is_none() || text)
}

/// Whether no two of the properties have the same name.
pub fn are_apart(ps: &Vec<PropertyEntry<IriBuf, BlankIdBuf>>) -> (r: bool)
    ensures
        r == apart(properties_model(ps@)),
{
    let ghost m = properties_model(ps@);
    let mut i: usize = 0;
    while i < ps.len()
        invariant
            i <= ps.len(),
            m == properties_model(ps@),
            forall|a: int, b: int| 0 <= a < b < m.len() && a < i ==> id_text((#[trigger] m[a]).0) != id_text((#[trigger] m[b]).0),
        decreases ps.len() - i,
    {
        let mut j: usize = i + 1;
        while j < ps.len()
            invariant
                i < j <= ps.len(),
                m == properties_model(ps@),
                forall|a: int, b: int|
                    0 <= a < b < m.len() && a < i ==> id_text((#[trigger] m[a]).0) != id_text((#[trigger] m[b]).0),
                forall|b: int| i < b < j ==> id_text(m[i as int].0) != id_text((#[trigger] m[b]).0),
            decreases ps.len() - j,
        {
            if text_eq(id_str(&ps[i].property), id_str(&ps[j].property)) {
                assert(id_text(m[i as int].0) == id_text(m[j as int].0));
                return false;
            }
            j = j + 1;
        }
        i = i + 1;
    }
    true
}

/// Whether no two of the reverse properties have the same name.
pub fn are_apart_reversed(ps: &Vec<ReversePropertyEntry<IriBuf, BlankIdBuf>>) -> (r: bool)
    ensures
        r == apart(reverse_properties_model(ps@)),
{
    let ghost m = reverse_properties_model(ps@);
    let mut i: usize = 0;
    while i < ps.len()
        invariant
            i <= ps.len(),
            m == reverse_properties_model(ps@),
            forall|a: int, b: int| 0 <= a < b < m.len() && a < i ==> id_text((#[trigger] m[a]).0) != id_text((#[trigger] m[b]).0),
        decreases ps.len() - i,
    {
        let mut j: usize = i + 1;
        while j < ps.len()
            invariant
                i < j <= ps.len(),
                m == reverse_properties_model(ps@),
                forall|a: int, b: int|
                    0 <= a < b < m.len() && a < i ==> id_text((#[trigger] m[a]).0) != id_text((#[trigger] m[b]).0),
                forall|b: int| i < b < j ==> id_text(m[i as int].0) != id_text((#[trigger] m[b]).0),
            decreases ps.len() - j,
        {
            if text_eq(id_str(&ps[i].property), id_str(&ps[j].property)) {
                assert(id_text(m[i as int].0) == id_text(m[j as int].0));
                return false;
            }
            j = j + 1;
        }
        i = i + 1;
    }
    true
}

/// Whether an object is sound.
pub fn is_sound_object(o: &Indexed<Object<IriBuf, BlankIdBuf>>) -> (r: bool)
    ensures
        r == sound_object(indexed_object_model(*o)),
    decreases o, 0int,
{
    match &o.inner {
        Object::Value(v) => is_sound_value(v),
        Object::Node(n) => is_sound_node(n),
        Object::List(l) => {
            let r = are_sound_objects(&l.items);
            proof {
                assert(object_model(o.inner) == ObjectModel::List(objects_model(l.items@)));
                lemma_sound_list(indexed_object_model(*o));
            }
            r
        },
    }
}

/// Whether the objects are sound.
pub fn are_sound_objects(os: &Vec<Indexed<Object<IriBuf, BlankIdBuf>>>) -> (r: bool)
    ensures
        r == sound_objects(objects_model(os@)),
    decreases os, 0int,
{
    let mut k: usize = 0;
    while k < os.len()
        invariant
            k <= os.len(),
            forall|i: int| 0 <= i < k ==> sound_object(#[trigger] objects_model(os@)[i]),
        decreases os.len() - k,
    {
        if !is_sound_object(&os[k]) {
            assert(!sound_object(objects_model(os@)[k as int]));
            return false;
        }
        assert(objects_model(os@)[k as int] == indexed_object_model(os@[k as int]));
        k = k + 1;
    }
    true
}

/// Whether the nodes are sound.
pub fn are_sound_nodes(ns: &Vec<Indexed<Node<IriBuf, BlankIdBuf>>>) -> (r: bool)
    ensures
        r == sound_nodes(nodes_model(ns@)),
    decreases ns, 0int,
{
    let mut k: usize = 0;
    while k < ns.len()
        invariant
            k <= ns.len(),
            forall|i: int| 0 <= i < k ==> sound_node((#[trigger] nodes_model(ns@)[i]).inner),
        decreases ns.len() - k,
    {
        if !is_sound_node(&ns[k].inner) {
            assert(nodes_model(ns@)[k as int] == indexed_node_model(ns@[k as int]));
            assert(!sound_node(nodes_model(ns@)[k as int].inner));
            return false;
        }
        assert(nodes_model(ns@)[k as int] == indexed_node_model(ns@[k as int]));
        k = k + 1;
    }
    true
}

/// Whether all the objects can stand free.
pub fn all_can_stand_free(os: &Vec<Indexed<Object<IriBuf, BlankIdBuf>>>) -> (r: bool)
    ensures
        r == all_stand_free(objects_model(os@)),
    decreases os, 0int,
{
    let mut k: usize = 0;
    while k < os.len()
        invariant
            k <= os.len(),
            forall|i: int| 0 <= i < k ==> stands_free(#[trigger] objects_model(os@)[i]),
        decreases os.len() - k,
    {
        assert(objects_model(os@)[k as int] == indexed_object_model(os@[k as int]));
        let free = match &os[k].inner {
            Object::Node(n) => !check_bare(n) && is_sound_node(n),
            _ => false,
        };
        if !free {
            assert(!stands_free(objects_model(os@)[k as int]));
            return false;
        }
        k = k + 1;
    }
    true
}

/// Whether each of the properties has a sound identifier and at least one object, all sound.
fn are_sound_properties(n: &Node<IriBuf, BlankIdBuf>) -> (r: bool)
    ensures
        r == sound_properties(node_model(*n).properties),
    decreases n, 0int,
{
    let ghost m = properties_model(n.properties.entries@);
    let mut k: usize = 0;
    while k < n.properties.entries.len()
        invariant
            k <= n.properties.entries.len(),
            m == properties_model(n.properties.entries@),
            forall|i: int|
                0 <= i < k ==> sound_id((#[trigger] m[i]).0) && m[i].1.len() > 0 && sound_objects(m[i].1),
        decreases n.properties.entries.len() - k,
    {
        assert(m[k as int] == (
            id_model(n.properties.entries@[k as int].property),
            objects_model(n.properties.entries@[k as int].objects@),
        ));
        let ok = is_sound_id(&n.properties.entries[k].property) && n.properties.entries[k].objects.len() > 0
            && are_sound_objects(&n.properties.entries[k].objects);
        if !ok {
            assert(!(sound_id(m[k as int].0) && m[k as int].1.len() > 0 && sound_objects(m[k as int].1)));
            return false;
        }
        k = k + 1;
    }
    true
}

/// Whether each of the reverse properties has a sound identifier and at least one node, all sound.
fn are_sound_reverse(n: &Node<IriBuf, BlankIdBuf>) -> (r: bool)
    requires
        n.reverse_properties is Some,
    ensures
        r == sound_reverse(node_model(*n).reverse_properties->0),
    decreases n, 0int,
{
    match &n.reverse_properties {
        None => true,
        Some(reverse) => {
            let ghost m = reverse_properties_model(reverse.entries@);
            let mut k: usize = 0;
            while k < reverse.entries.len()
                invariant
                    k <= reverse.entries.len(),
                    n.reverse_properties == Some(*reverse),
                    m == reverse_properties_model(reverse.entries@),
                    forall|i: int|
                        0 <= i < k ==> sound_id((#[trigger] m[i]).0) && m[i].1.len() > 0 && sound_nodes(m[i].1),
                decreases reverse.entries.len() - k,
            {
                assert(m[k as int] == (
                    id_model(reverse.entries@[k as int].property),
                    nodes_model(reverse.entries@[k as int].nodes@),
                ));
                let ok = is_sound_id(&reverse.entries[k].property) && reverse.entries[k].nodes.len() > 0
                    && are_sound_nodes(&reverse.entries[k].nodes);
                if !ok {
                    assert(!(sound_id(m[k as int].0) && m[k as int].1.len() > 0 && sound_nodes(m[k as int].1)));
                    return false;
                }
                k = k + 1;
            }
            true
        },
    }
}

/// Whether a node is sound.
pub fn is_sound_node(n: &Node<IriBuf, BlankIdBuf>) -> (r: bool)
    ensures
        r == sound_node(node_model(*n)),
    decreases n, 1int,
{
    proof {
        lemma_sound_node(node_model(*n));
    }
    let id = match &n.id {
        Some(id) => is_sound_id(id),
        None => true,
    };
    let types = match &n.types {
        Some(ts) => are_sound_ids(ts),
        None => true,
    };
    let graph = match &n.graph {
        Some(g) => all_can_stand_free(g),
        None => true,
    };
    let included = match &n.included {
        Some(ns) => are_sound_nodes(ns),
        None => true,
    };
    let reverse = match &n.reverse_properties {
        Some(r) => r.entries.len() > 0 && are_apart_reversed(&r.entries) && are_sound_reverse(n),
        None => true,
    };
    id && types && graph && included && are_apart(&n.properties.entries) && are_sound_properties(n) && reverse
}

/// Whether the objects are those of a sound document.
pub fn is_sound_document(os: &Vec<Indexed<Object<IriBuf, BlankIdBuf>>>) -> (r: bool)
    ensures
        r == sound_document(objects_model(os@)),
{
    if !all_can_stand_free(os) {
        return false;
    }
    if os.len() != 1 {
        return true;
    }
    assert(objects_model(os@)[0] == indexed_object_model(os@[0]));
    let wrapper = os[0].index.is_none() && match &os[0].inner {
        Object::Node(n) => {
            assert(object_model(os@[0].inner) == ObjectModel::Node(node_model(*n)));
            assert(node_model(*n).properties.len() == n.properties.entries.len());
            n.id.is_none() && n.types.is_none() && n.graph.is_some() && n.included.is_none()
                && n.properties.entries.len() == 0 && n.reverse_properties.is_none()
        },
        _ => {
            assert(!(object_model(os@[0].inner) is Node));
            false
        },
    };
    assert(wrapper == is_wrapper(objects_model(os@)));
    !wrapper
}

} // verus!
