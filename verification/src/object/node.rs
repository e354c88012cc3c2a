//! Objects, nodes and lists.

use vstd::prelude::*;

use crate::object::id::Id;
use crate::object::indexed::Indexed;
use crate::object::value::Value;

verus! {

/// An object of the expanded form.
pub enum Object<T, B> {
    /// A literal value.
    Value(Value<T>),
    /// A node of the graph.
    Node(Node<T, B>),
    /// An ordered list of objects.
    List(List<T, B>),
}

/// An ordered list of objects.
pub struct List<T, B> {
    /// The items, in order.
    pub items: Vec<Indexed<Object<T, B>>>,
}

/// The objects of one property of a node.
pub struct PropertyEntry<T, B> {
    /// The property.
    pub property: Id<T, B>,
    /// Its objects; their order carries no meaning.
    pub objects: Vec<Indexed<Object<T, B>>>,
}

/// The properties of a node, each with its objects.
pub struct Properties<T, B> {
    /// One entry for each property; their order carries no meaning.
    pub entries: Vec<PropertyEntry<T, B>>,
}

/// The subjects of one reverse property of a node.
pub struct ReversePropertyEntry<T, B> {
    /// The property.
    pub property: Id<T, B>,
    /// The nodes that have this node as an object of the property; their order carries no meaning.
    pub nodes: Vec<Indexed<Node<T, B>>>,
}

/// The reverse properties of a node, each with its subjects.
pub struct ReverseProperties<T, B> {
    /// One entry for each property; their order carries no meaning.
    pub entries: Vec<ReversePropertyEntry<T, B>>,
}

/// A node of the graph.
pub struct Node<T, B> {
    /// Its identifier.
    pub id: Option<Id<T, B>>,
    /// Its types; their order carries no meaning.
    pub types: Option<Vec<Id<T, B>>>,
    /// The graph it holds; the order of its objects carries no meaning.
    pub graph: Option<Vec<Indexed<Object<T, B>>>>,
    /// The nodes it includes; their order carries no meaning.
    pub included: Option<Vec<Indexed<Node<T, B>>>>,
    /// Its properties.
    pub properties: Properties<T, B>,
    /// Its reverse properties.
    pub reverse_properties: Option<ReverseProperties<T, B>>,
}

} // verus!
