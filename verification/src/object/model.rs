//! The plain data of the expanded form, for identifiers that are IRIs and blank node labels.

use vstd::prelude::*;

use crate::iri::{BlankIdBuf, IriBuf};
use crate::object::id::{Id, ValidId};
use crate::object::indexed::Indexed;
use crate::object::node::{List, Node, Object, PropertyEntry, ReversePropertyEntry};
use crate::object::value::{text_of, Direction, Value};

verus! {

/// The plain data of an identifier.
pub enum IdModel {
    /// An IRI.
    Iri(Seq<char>),
    /// A blank node label.
    Blank(Seq<char>),
    /// A string that is neither.
    Invalid(Seq<char>),
}

/// The plain data of a literal value.
pub struct ValueModel {
    /// The scalar itself.
    pub literal: crate::object::value::LiteralModel,
    /// The IRI of its datatype, if any.
    pub ty: Option<Seq<char>>,
    /// Its language tag, if any.
    pub language: Option<Seq<char>>,
    /// Its base direction, if any.
    pub direction: Option<Direction>,
}

/// The plain data of an object.
pub enum ObjectModel {
    /// A literal value.
    Value(ValueModel),
    /// A node.
    Node(NodeModel),
    /// A list.
    List(Seq<IndexedObjectModel>),
}

/// The plain data of an object with its index.
pub struct IndexedObjectModel {
    /// The object.
    pub inner: ObjectModel,
    /// The index.
    pub index: Option<Seq<char>>,
}

/// The plain data of a node with its index.
pub struct IndexedNodeModel {
    /// The node.
    pub inner: NodeModel,
    /// The index.
    pub index: Option<Seq<char>>,
}

/// The plain data of a node.
pub struct NodeModel {
    /// Its identifier.
    pub id: Option<IdModel>,
    /// Its types.
    pub types: Option<Seq<IdModel>>,
    /// The graph it holds.
    pub graph: Option<Seq<IndexedObjectModel>>,
    /// The nodes it includes.
    pub included: Option<Seq<IndexedNodeModel>>,
    /// Its properties, each with its objects.
    pub properties: Seq<(IdModel, Seq<IndexedObjectModel>)>,
    /// Its reverse properties, each with its subjects.
    pub reverse_properties: Option<Seq<(IdModel, Seq<IndexedNodeModel>)>>,
}

/// An identifier of the expanded form.
pub type NodeId = Id<IriBuf, BlankIdBuf>;

/// The plain data of an identifier.
pub open spec fn id_model(id: NodeId) -> IdModel {
    match id {
        Id::Valid(ValidId::Iri(i)) => IdModel::Iri(i@),
        Id::Valid(ValidId::Blank(b)) => IdModel::Blank(b@),
        Id::Invalid(s) => IdModel::Invalid(s@),
    }
}

/// The plain data of identifiers.
pub open spec fn ids_model(ids: Seq<NodeId>) -> Seq<IdModel> {
    Seq::new(ids.len(), |i: int| id_model(ids[i]))
}

/// The plain data of a literal value.
pub open spec fn value_model(v: Value<IriBuf>) -> ValueModel {
    ValueModel {
        literal: v.literal.view(),
        ty: match v.ty {
            Some(t) => Some(t@),
            None => None,
        },
        language: text_of(v.language),
        direction: v.direction,
    }
}

/// The plain data of an object.
pub open spec fn object_model(o: Object<IriBuf, BlankIdBuf>) -> ObjectModel
    decreases o,
{
    match o {
        Object::Value(v) => ObjectModel::Value(value_model(v)),
        Object::Node(n) => ObjectModel::Node(node_model(n)),
        Object::List(l) => ObjectModel::List(objects_model(l.items@)),
    }
}

/// The plain data of an object with its index.
pub open spec fn indexed_object_model(o: Indexed<Object<IriBuf, BlankIdBuf>>) -> IndexedObjectModel
    decreases o,
{
    IndexedObjectModel { inner: object_model(o.inner), index: text_of(o.index) }
}

/// The plain data of objects.
pub open spec fn objects_model(os: Seq<Indexed<Object<IriBuf, BlankIdBuf>>>) -> Seq<IndexedObjectModel>
    decreases os,
{
    Seq::new(
        os.len(),
        |i: int|
            if 0 <= i < os.len() {
                indexed_object_model(os[i])
            } else {
                IndexedObjectModel { inner: ObjectModel::List(Seq::empty()), index: None }
            },
    )
}

/// The plain data of a node with its index.
pub open spec fn indexed_node_model(n: Indexed<Node<IriBuf, BlankIdBuf>>) -> IndexedNodeModel
    decreases n,
{
    IndexedNodeModel { inner: node_model(n.inner), index: text_of(n.index) }
}

/// The node without anything.
pub open spec fn empty_node() -> NodeModel {
    NodeModel {
        id: None,
        types: None,
        graph: None,
        included: None,
        properties: Seq::empty(),
        reverse_properties: None,
    }
}

/// The plain data of nodes.
pub open spec fn nodes_model(ns: Seq<Indexed<Node<IriBuf, BlankIdBuf>>>) -> Seq<IndexedNodeModel>
    decreases ns,
{
    Seq::new(
        ns.len(),
        |i: int|
            if 0 <= i < ns.len() {
                indexed_node_model(ns[i])
            } else {
                IndexedNodeModel { inner: empty_node(), index: None }
            },
    )
}

/// The plain data of the properties of a node.
pub open spec fn properties_model(ps: Seq<PropertyEntry<IriBuf, BlankIdBuf>>) -> Seq<
    (IdModel, Seq<IndexedObjectModel>),
>
    decreases ps,
{
    Seq::new(
        ps.len(),
        |i: int|
            if 0 <= i < ps.len() {
                (id_model(ps[i].property), objects_model(ps[i].objects@))
            } else {
                (IdModel::Invalid(Seq::empty()), Seq::empty())
            },
    )
}

/// The plain data of the reverse properties of a node.
pub open spec fn reverse_properties_model(ps: Seq<ReversePropertyEntry<IriBuf, BlankIdBuf>>) -> Seq<
    (IdModel, Seq<IndexedNodeModel>),
>
    decreases ps,
{
    Seq::new(
        ps.len(),
        |i: int|
            if 0 <= i < ps.len() {
                (id_model(ps[i].property), nodes_model(ps[i].nodes@))
            } else {
                (IdModel::Invalid(Seq::empty()), Seq::empty())
            },
    )
}

/// The plain data of a node.
pub open spec fn node_model(n: Node<IriBuf, BlankIdBuf>) -> NodeModel
    decreases n,
{
    NodeModel {
        id: match n.id {
            Some(id) => Some(id_model(id)),
            None => None,
        },
        types: match n.types {
            Some(ts) => Some(ids_model(ts@)),
            None => None,
        },
        graph: match n.graph {
            Some(g) => Some(objects_model(g@)),
            None => None,
        },
        included: match n.included {
            Some(ns) => Some(nodes_model(ns@)),
            None => None,
        },
        properties: properties_model(n.properties.entries@),
        reverse_properties: match n.reverse_properties {
            Some(r) => Some(reverse_properties_model(r.entries@)),
            None => None,
        },
    }
}

/// Adds `o` at the end of `os`.
pub fn push_object(os: &mut Vec<Indexed<Object<IriBuf, BlankIdBuf>>>, o: Indexed<Object<IriBuf, BlankIdBuf>>)
    ensures
        objects_model(final(os)@) == objects_model(old(os)@).push(indexed_object_model(o)),
{
    let ghost before = os@;
    os.push(o);
    assert(objects_model(os@) =~= objects_model(before).push(indexed_object_model(o)));
}

/// Adds the objects `more` at the end of `os`.
pub fn append_objects(
    os: &mut Vec<Indexed<Object<IriBuf, BlankIdBuf>>>,
    more: Vec<Indexed<Object<IriBuf, BlankIdBuf>>>,
)
    ensures
        objects_model(final(os)@) == objects_model(old(os)@) + objects_model(more@),
{
    let ghost before = os@;
    let ghost added = more@;
    let mut more = more;
    os.append(&mut more);
    assert(objects_model(os@) =~= objects_model(before) + objects_model(added));
}

} // verus!
