//! The building of nodes.

use vstd::prelude::*;

use crate::context::ActiveContext;
use crate::error::ErrorCode;
use crate::expansion::model::{as_list, is_bare, node_types_of, nodes_of, property_position, types_of, with_objects};
use crate::expansion::values::{reference, same_id, ExpandedNode, ExpandedObject};
use crate::iri::{BlankIdBuf, IriBuf};
use crate::json::{items_view, Json, JsonView};
use crate::object::indexed::Indexed;
use crate::object::model::{
    id_model,
    ids_model,
    indexed_object_model,
    node_model,
    nodes_model,
    objects_model,
    properties_model,
    reverse_properties_model,
    IdModel,
    IndexedNodeModel,
    IndexedObjectModel,
    NodeId,
    NodeModel,
};
use crate::object::node::{List, Node, Object, PropertyEntry, ReverseProperties, ReversePropertyEntry};

verus! {

/// Gives `node` the identifier `id`.
pub fn set_id(node: &mut ExpandedNode, id: NodeId)
    ensures
        node_model(*final(node)) == (NodeModel { id: Some(id_model(id)), ..node_model(*old(node)) }),
{
    node.id = Some(id);
}

/// Adds `types` to the types of `node`.
pub fn add_types(node: &mut ExpandedNode, types: Vec<NodeId>)
    ensures
        node_model(*final(node)) == (NodeModel {
            types: Some(
                match node_model(*old(node)).types {
                    Some(before) => before + ids_model(types@),
                    None => ids_model(types@),
                },
            ),
            ..node_model(*old(node))
        }),
{
    let ghost added = types@;
    let mut types = types;
    match &mut node.types {
        Some(before) => {
            let ghost b = before@;
            before.append(&mut types);
            assert(ids_model(before@) =~= ids_model(b) + ids_model(added));
        },
        None => {
            node.types = Some(types);
        },
    }
}

/// Adds `objects` to the graph of `node`.
pub fn add_graph(node: &mut ExpandedNode, objects: Vec<Indexed<ExpandedObject>>)
    ensures
        node_model(*final(node)) == (NodeModel {
            graph: Some(
                match node_model(*old(node)).graph {
                    Some(before) => before + objects_model(objects@),
                    None => objects_model(objects@),
                },
            ),
            ..node_model(*old(node))
        }),
{
    match &mut node.graph {
        Some(before) => {
            crate::object::model::append_objects(before, objects);
        },
        None => {
            node.graph = Some(objects);
        },
    }
}

/// Adds `nodes` to the nodes that `node` includes.
pub fn add_included(node: &mut ExpandedNode, nodes: Vec<Indexed<ExpandedNode>>)
    ensures
        node_model(*final(node)) == (NodeModel {
            included: Some(
                match node_model(*old(node)).included {
                    Some(before) => before + nodes_model(nodes@),
                    None => nodes_model(nodes@),
                },
            ),
            ..node_model(*old(node))
        }),
{
    let ghost added = nodes@;
    let mut nodes = nodes;
    match &mut node.included {
        Some(before) => {
            let ghost b = before@;
            before.append(&mut nodes);
            assert(nodes_model(before@) =~= nodes_model(b) + nodes_model(added));
        },
        None => {
            node.included = Some(nodes);
        },
    }
}

/// The place of the first of the properties that is `id`.
fn find_property(ps: &Vec<PropertyEntry<IriBuf, BlankIdBuf>>, id: &NodeId) -> (r: Option<usize>)
    ensures
        match r {
            Some(i) => i < ps.len() && property_position(properties_model(ps@), id_model(*id), 0) == Some(
                i as int,
            ),
            None => property_position(properties_model(ps@), id_model(*id), 0) is None,
        },
{
    let ghost m = properties_model(ps@);
    let mut k: usize = 0;
    while k < ps.len()
        invariant
            k <= ps.len(),
            m == properties_model(ps@),
            property_position(m, id_model(*id), k as int) == property_position(m, id_model(*id), 0),
        decreases ps.len() - k,
    {
        assert(m[k as int].0 == id_model(ps@[k as int].property));
        if same_id(&ps[k].property, id) {
            return Some(k);
        }
        k = k + 1;
    }
    None
}

/// The place of the first of the reverse properties that is `id`.
fn find_reverse_property(ps: &Vec<ReversePropertyEntry<IriBuf, BlankIdBuf>>, id: &NodeId) -> (r: Option<usize>)
    ensures
        match r {
            Some(i) => i < ps.len() && property_position(reverse_properties_model(ps@), id_model(*id), 0)
                == Some(i as int),
            None => property_position(reverse_properties_model(ps@), id_model(*id), 0) is None,
        },
{
    let ghost m = reverse_properties_model(ps@);
    let mut k: usize = 0;
    while k < ps.len()
        invariant
            k <= ps.len(),
            m == reverse_properties_model(ps@),
            property_position(m, id_model(*id), k as int) == property_position(m, id_model(*id), 0),
        decreases ps.len() - k,
    {
        assert(m[k as int].0 == id_model(ps@[k as int].property));
        if same_id(&ps[k].property, id) {
            return Some(k);
        }
        k = k + 1;
    }
    None
}

/// Adds `objects` to those of the property `id`.
pub fn add_objects(
    ps: &mut Vec<PropertyEntry<IriBuf, BlankIdBuf>>,
    id: NodeId,
    objects: Vec<Indexed<ExpandedObject>>,
)
    ensures
        properties_model(final(ps)@) == with_objects(properties_model(old(ps)@), id_model(id), objects_model(objects@)),
{
    let ghost before = ps@;
    let ghost m = properties_model(ps@);
    match find_property(ps, &id) {
        Some(i) => {
            let mut entry = ps.remove(i);
            let ghost old_entry = entry;
            crate::object::model::append_objects(&mut entry.objects, objects);
            entry.property = id;
            ps.insert(i, entry);
            assert(properties_model(ps@) =~= m.update(
                i as int,
                (id_model(id), m[i as int].1 + objects_model(objects@)),
            )) by {
                assert(m[i as int] == (id_model(old_entry.property), objects_model(old_entry.objects@)));
                assert forall|j: int| 0 <= j < ps@.len() implies #[trigger] properties_model(ps@)[j] == m.update(
                    i as int,
                    (id_model(id), m[i as int].1 + objects_model(objects@)),
                )[j] by {
                    if j != i {
                        assert(ps@[j] == before[j]);
                        assert(m[j] == (id_model(before[j].property), objects_model(before[j].objects@)));
                    }
                }
            }
        },
        None => {
            ps.push(PropertyEntry { property: id, objects });
            assert(properties_model(ps@) =~= m.push((id_model(id), objects_model(objects@))));
        },
    }
}

/// Adds `nodes` to those of the reverse property `id`.
pub fn add_subjects(
    ps: &mut Vec<ReversePropertyEntry<IriBuf, BlankIdBuf>>,
    id: NodeId,
    nodes: Vec<Indexed<ExpandedNode>>,
)
    ensures
        reverse_properties_model(final(ps)@) == with_objects(
            reverse_properties_model(old(ps)@),
            id_model(id),
            nodes_model(nodes@),
        ),
{
    let ghost before = ps@;
    let ghost m = reverse_properties_model(ps@);
    let ghost added = nodes@;
    match find_reverse_property(ps, &id) {
        Some(i) => {
            let mut entry = ps.remove(i);
            let ghost old_entry = entry;
            let mut nodes = nodes;
            entry.nodes.append(&mut nodes);
            assert(nodes_model(entry.nodes@) =~= nodes_model(old_entry.nodes@) + nodes_model(added));
            entry.property = id;
            ps.insert(i, entry);
            assert(reverse_properties_model(ps@) =~= m.update(
                i as int,
                (id_model(id), m[i as int].1 + nodes_model(added)),
            )) by {
                assert(m[i as int] == (id_model(old_entry.property), nodes_model(old_entry.nodes@)));
                assert forall|j: int| 0 <= j < ps@.len() implies #[trigger] reverse_properties_model(ps@)[j]
                    == m.update(i as int, (id_model(id), m[i as int].1 + nodes_model(added)))[j] by {
                    if j != i {
                        assert(ps@[j] == before[j]);
                        assert(m[j] == (id_model(before[j].property), nodes_model(before[j].nodes@)));
                    }
                }
            }
        },
        None => {
            ps.push(ReversePropertyEntry { property: id, nodes });
            assert(reverse_properties_model(ps@) =~= m.push((id_model(id), nodes_model(added))));
        },
    }
}

/// Adds `objects` to those of the property `id` of `node`.
pub fn add_property(node: &mut ExpandedNode, id: NodeId, objects: Vec<Indexed<ExpandedObject>>)
    ensures
        node_model(*final(node)) == (NodeModel {
            properties: with_objects(node_model(*old(node)).properties, id_model(id), objects_model(objects@)),
            ..node_model(*old(node))
        }),
{
    add_objects(&mut node.properties.entries, id, objects);
}

/// Adds `nodes` to those of the reverse property `id` of `node`.
pub fn add_reverse_property(node: &mut ExpandedNode, id: NodeId, nodes: Vec<Indexed<ExpandedNode>>)
    ensures
        node_model(*final(node)) == (NodeModel {
            reverse_properties: Some(
                with_objects(
                    match node_model(*old(node)).reverse_properties {
                        Some(before) => before,
                        None => Seq::empty(),
                    },
                    id_model(id),
                    nodes_model(nodes@),
                ),
            ),
            ..node_model(*old(node))
        }),
{
    if node.reverse_properties.is_none() {
        let fresh = ReverseProperties { entries: Vec::new() };
        assert(reverse_properties_model(fresh.entries@) =~= Seq::empty());
        node.reverse_properties = Some(fresh);
    }
    match &mut node.reverse_properties {
        Some(r) => {
            add_subjects(&mut r.entries, id, nodes);
        },
        None => {},
    }
}

/// The nodes that objects are, with their indexes, if all are nodes.
pub fn nodes_of_exec(objects: Vec<Indexed<ExpandedObject>>) -> (r: Option<Vec<Indexed<ExpandedNode>>>)
    ensures
        match r {
            Some(ns) => nodes_of(objects_model(objects@), objects.len() as int) == Some(nodes_model(ns@)),
            None => nodes_of(objects_model(objects@), objects.len() as int) is None,
        },
{
    let ghost m = objects_model(objects@);
    let ghost n = objects.len() as int;
    let mut rest = objects;
    let mut nodes: Vec<Indexed<ExpandedNode>> = Vec::new();
    assert(nodes_model(nodes@) =~= Seq::empty());
    let mut k: usize = 0;
    while rest.len() > 0
        invariant
            k + rest.len() == n,
            m.len() == n,
            n == objects.len(),
            m == objects_model(objects@),
            forall|i: int| 0 <= i < rest.len() ==> indexed_object_model(#[trigger] rest@[i]) == m[k + i],
            nodes_of(m, k as int) == Some(nodes_model(nodes@)),
        decreases rest.len(),
    {
        assert(indexed_object_model(rest@[0]) == m[k as int]);
        let ghost before_rest = rest@;
        let o = rest.remove(0);
        assert forall|i: int| 0 <= i < rest.len() implies indexed_object_model(#[trigger] rest@[i]) == m[k + 1
            + i] by {
            assert(rest@[i] == before_rest[i + 1]);
        }
        match o.inner {
            Object::Node(node) => {
                let ghost before = nodes@;
                nodes.push(Indexed { inner: node, index: o.index });
                assert(nodes_model(nodes@) =~= nodes_model(before).push(
                    IndexedNodeModel { inner: m[k as int].inner->Node_0, index: m[k as int].index },
                ));
            },
            _ => {
                proof {
                    assert(nodes_of(m, k + 1) is None);
                    lemma_nodes_of_fail(m, k + 1, n);
                }
                return None;
            },
        }
        k = k + 1;
    }
    Some(nodes)
}

/// Where the first objects are not all nodes, more objects are not either.
proof fn lemma_nodes_of_fail(objects: Seq<IndexedObjectModel>, i: int, k: int)
    requires
        0 <= i <= k <= objects.len(),
        nodes_of(objects, i) is None,
    ensures
        nodes_of(objects, k) is None,
    decreases k - i,
{
    if i < k {
        lemma_nodes_of_fail(objects, i, k - 1);
    }
}

/// The types that an `@type` entry of a node gives.
pub fn read_node_types(active: &ActiveContext, value: &Json) -> (r: Result<Vec<NodeId>, ErrorCode>)
    ensures
        match r {
            Ok(ts) => node_types_of(active@, value@) == Ok::<Seq<IdModel>, ErrorCode>(ids_model(ts@)),
            Err(e) => node_types_of(active@, value@) == Err::<Seq<IdModel>, ErrorCode>(e),
        },
{
    let mut ts: Vec<NodeId> = Vec::new();
    match value {
        Json::Text(s) => {
            ts.push(reference(active, s.as_str(), true));
            assert(ids_model(ts@) =~= seq![crate::expansion::model::reference_of(active@, s@, true)]);
            Ok(ts)
        },
        Json::Array(items) => {
            let ghost views = items_view(items@);
            assert(ids_model(ts@) =~= Seq::empty());
            let mut k: usize = 0;
            while k < items.len()
                invariant
                    k <= items.len(),
                    views == items_view(items@),
                    value@ == JsonView::Array(views),
                    types_of(active@, views, k as int) == Some(ids_model(ts@)),
                decreases items.len() - k,
            {
                assert(views[k as int] == items@[k as int]@);
                match &items[k] {
                    Json::Text(s) => {
                        let ghost before = ts@;
                        ts.push(reference(active, s.as_str(), true));
                        assert(ids_model(ts@) =~= ids_model(before).push(
                            crate::expansion::model::reference_of(active@, s@, true),
                        ));
                    },
                    _ => {
                        proof {
                            assert(types_of(active@, views, k + 1) is None);
                            lemma_types_of_fail(active@, views, k + 1, items.len() as int);
                        }
                        return Err(ErrorCode::InvalidTypeValue);
                    },
                }
                k = k + 1;
            }
            Ok(ts)
        },
        _ => Err(ErrorCode::InvalidTypeValue),
    }
}

/// Where the first items are not all strings, more items are not either.
proof fn lemma_types_of_fail(active: crate::context::ActiveContextModel, items: Seq<JsonView>, i: int, k: int)
    requires
        0 <= i <= k <= items.len(),
        types_of(active, items, i) is None,
    ensures
        types_of(active, items, k) is None,
    decreases k - i,
{
    if i < k {
        lemma_types_of_fail(active, items, i, k - 1);
    }
}

/// The objects of a property as the items of one list; where what stood
/// under the property was no array, unless they are one list already.
pub fn as_list_exec(objects: Vec<Indexed<ExpandedObject>>, array: bool) -> (r: Vec<Indexed<ExpandedObject>>)
    ensures
        objects_model(r@) == as_list(objects_model(objects@), array),
{
    let single = !array && objects.len() == 1 && match &objects[0].inner {
        Object::List(_) => true,
        _ => false,
    };
    if single {
        assert(objects_model(objects@)[0] == indexed_object_model(objects@[0]));
        objects
    } else {
        assert(objects.len() == 1 ==> objects_model(objects@)[0] == indexed_object_model(objects@[0]));
        let mut r: Vec<Indexed<ExpandedObject>> = Vec::new();
        let list = Indexed { inner: Object::List(List { items: objects }), index: None };
        r.push(list);
        assert(objects_model(r@) =~= seq![indexed_object_model(list)]);
        r
    }
}

/// Whether a node has nothing but, at most, an identifier.
pub fn check_bare(node: &ExpandedNode) -> (r: bool)
    ensures
        r == is_bare(node_model(*node)),
{
    node.types.is_none() && node.graph.is_none() && node.included.is_none() && node.properties.entries.len() == 0
        && node.reverse_properties.is_none()
}

} // verus!
