//! What the expansion of a document comes to.

use vstd::prelude::*;

use crate::context::{expand_iri, ActiveContextModel, TermDefinitionModel};
use crate::error::ErrorCode;
use crate::iri::{blank_id_syntax, iri_syntax};
use crate::json::JsonView;
use crate::object::model::{empty_node, IdModel, IndexedNodeModel, IndexedObjectModel, NodeModel, ObjectModel, ValueModel};
use crate::object::value::{Direction, LiteralModel};
use crate::processing::model::{process_value, Env, Options, MAX_REMOTE_CONTEXTS};
use crate::syntax::context::{ContainerKind, Nullable};
use crate::text::{is_keyword, position};

verus! {

/// The identifier that the string `s` is: an IRI, a blank node label, or neither.
pub open spec fn id_of(s: Seq<char>) -> IdModel {
    if iri_syntax(s) {
        IdModel::Iri(s)
    } else if blank_id_syntax(s) {
        IdModel::Blank(s)
    } else {
        IdModel::Invalid(s)
    }
}

/// The identifier that `s` stands for as a reference to a node.
pub open spec fn reference_of(active: ActiveContextModel, s: Seq<char>, vocab: bool) -> IdModel {
    match expand_iri(active, s, true, vocab) {
        Some(iri) => id_of(iri),
        None => IdModel::Invalid(s),
    }
}

/// The node that has the identifier `id` and nothing else.
pub open spec fn node_reference(id: IdModel) -> NodeModel {
    NodeModel { id: Some(id), ..empty_node() }
}

/// The type that the values of a property are given, if any.
pub open spec fn type_of(def: Option<TermDefinitionModel>) -> Option<Seq<char>> {
    match def {
        Some(d) => d.typ,
        None => None,
    }
}

/// The language that the strings of a property are given, if any.
pub open spec fn language_of_property(active: ActiveContextModel, def: Option<TermDefinitionModel>) -> Option<
    Seq<char>,
> {
    match def {
        Some(d) => match d.language {
            Some(Nullable::Given(l)) => Some(l),
            Some(Nullable::Null) => None,
            None => active.language,
        },
        None => active.language,
    }
}

/// The direction that the strings of a property are given, if any.
pub open spec fn direction_of_property(active: ActiveContextModel, def: Option<TermDefinitionModel>) -> Option<
    Direction,
> {
    match def {
        Some(d) => match d.direction {
            Some(Nullable::Given(l)) => Some(l),
            Some(Nullable::Null) => None,
            None => active.direction,
        },
        None => active.direction,
    }
}

/// The object that a scalar stands for as a value of `property`: a
/// reference to a node where the property has the type `@id` or `@vocab`
/// and the scalar is a string; else a value, with the type of the
/// property where that is an IRI, or, for a string of a property without
/// a type, its language and direction.
pub open spec fn expand_scalar(active: ActiveContextModel, property: Seq<char>, literal: LiteralModel) -> ObjectModel {
    let def = active.get(property);
    let typ = type_of(def);
    if typ == Some("@id"@) && literal is Text {
        ObjectModel::Node(node_reference(reference_of(active, literal->Text_0, false)))
    } else if typ == Some("@vocab"@) && literal is Text {
        ObjectModel::Node(node_reference(reference_of(active, literal->Text_0, true)))
    } else {
        let typed = typ is Some && typ != Some("@id"@) && typ != Some("@vocab"@) && typ != Some("@none"@);
        let ty = if typed && iri_syntax(typ->0) {
            typ
        } else {
            None
        };
        let plain = literal is Text && !typed;
        ObjectModel::Value(
            ValueModel {
                literal,
                ty,
                language: if plain {
                    language_of_property(active, def)
                } else {
                    None
                },
                direction: if plain {
                    direction_of_property(active, def)
                } else {
                    None
                },
            },
        )
    }
}

/// The scalar that a JSON value is, if it is one.
pub open spec fn literal_of(j: JsonView) -> Option<LiteralModel> {
    match j {
        JsonView::Boolean(b) => Some(LiteralModel::Boolean(b)),
        JsonView::Number(n) => Some(LiteralModel::Number(n)),
        JsonView::Text(s) => Some(LiteralModel::Text(s)),
        _ => None,
    }
}

/// Whether what stands under `property` stands free: under no property, or under `@graph`.
pub open spec fn free_floating(property: Option<Seq<char>>) -> bool {
    property is None || property == Some("@graph"@)
}

/// Whether the values of `property` are the items of a list.
pub open spec fn is_list_property(active: ActiveContextModel, property: Option<Seq<char>>) -> bool {
    match property {
        Some(p) => match active.get(p) {
            Some(d) => d.container.contains(ContainerKind::List),
            None => false,
        },
        None => false,
    }
}

/// The value of the first of the entries from `k` on whose key stands for `keyword`.
pub open spec fn entry_of(
    active: ActiveContextModel,
    entries: Seq<(Seq<char>, JsonView)>,
    keyword: Seq<char>,
    k: int,
) -> Option<JsonView>
    decreases entries.len() - k,
{
    if k < 0 || k >= entries.len() {
        None
    } else if expand_iri(active, entries[k].0, false, true) == Some(keyword) {
        Some(entries[k].1)
    } else {
        entry_of(active, entries, keyword, k + 1)
    }
}

/// Whether the key of each entry from `k` on stands for one of the keywords `allowed`.
pub open spec fn keys_among(
    active: ActiveContextModel,
    entries: Seq<(Seq<char>, JsonView)>,
    allowed: Seq<Seq<char>>,
    k: int,
) -> bool
    decreases entries.len() - k,
{
    if k < 0 || k >= entries.len() {
        true
    } else {
        (match expand_iri(active, entries[k].0, false, true) {
            Some(e) => allowed.contains(e),
            None => false,
        }) && keys_among(active, entries, allowed, k + 1)
    }
}

/// The index that an `@index` entry gives.
pub open spec fn index_of(entry: Option<JsonView>) -> Result<Option<Seq<char>>, ErrorCode> {
    match entry {
        None => Ok(None),
        Some(JsonView::Text(s)) => Ok(Some(s)),
        Some(_) => Err(ErrorCode::InvalidIndexValue),
    }
}

/// The keywords that may stand in a value object.
pub open spec fn value_object_keys() -> Seq<Seq<char>> {
    seq!["@value"@, "@type"@, "@language"@, "@direction"@, "@index"@, "@context"@]
}

/// The keywords that may stand in a list object.
pub open spec fn list_object_keys() -> Seq<Seq<char>> {
    seq!["@list"@, "@index"@, "@context"@]
}

/// The keywords that may stand in a set object.
pub open spec fn set_object_keys() -> Seq<Seq<char>> {
    seq!["@set"@, "@index"@, "@context"@]
}

/// The type that the `@type` entry of a value object gives.
pub open spec fn value_type_of(active: ActiveContextModel, entry: Option<JsonView>) -> Result<
    Option<Seq<char>>,
    ErrorCode,
> {
    match entry {
        None => Ok(None),
        Some(JsonView::Text(s)) => match expand_iri(active, s, true, true) {
            Some(iri) => if iri_syntax(iri) {
                Ok(Some(iri))
            } else {
                Err(ErrorCode::InvalidTypedValue)
            },
            None => Err(ErrorCode::InvalidTypedValue),
        },
        Some(_) => Err(ErrorCode::InvalidTypedValue),
    }
}

/// The language that the `@language` entry of a value object gives.
pub open spec fn value_language_of(entry: Option<JsonView>, literal: LiteralModel) -> Result<
    Option<Seq<char>>,
    ErrorCode,
> {
    match entry {
        None => Ok(None),
        Some(JsonView::Null) => Ok(None),
        Some(JsonView::Text(s)) => if literal is Text {
            Ok(Some(s))
        } else {
            Err(ErrorCode::InvalidLanguageTaggedValue)
        },
        Some(_) => Err(ErrorCode::InvalidLanguageTaggedString),
    }
}

/// The direction that the `@direction` entry of a value object gives.
pub open spec fn value_direction_of(entry: Option<JsonView>) -> Result<Option<Direction>, ErrorCode> {
    match entry {
        None => Ok(None),
        Some(JsonView::Null) => Ok(None),
        Some(JsonView::Text(s)) => if s == "ltr"@ {
            Ok(Some(Direction::Ltr))
        } else if s == "rtl"@ {
            Ok(Some(Direction::Rtl))
        } else {
            Err(ErrorCode::InvalidBaseDirection)
        },
        Some(_) => Err(ErrorCode::InvalidBaseDirection),
    }
}

/// The objects that a value object stands for: the value that it
/// describes, or nothing where its `@value` is `null` or where it stands free.
pub open spec fn expand_value_object(
    active: ActiveContextModel,
    property: Option<Seq<char>>,
    entries: Seq<(Seq<char>, JsonView)>,
) -> Result<Seq<IndexedObjectModel>, ErrorCode> {
    let t = entry_of(active, entries, "@type"@, 0);
    let l = entry_of(active, entries, "@language"@, 0);
    let d = entry_of(active, entries, "@direction"@, 0);
    if !keys_among(active, entries, value_object_keys(), 0) {
        Err(ErrorCode::InvalidValueObject)
    } else if t is Some && (l is Some || d is Some) {
        Err(ErrorCode::InvalidValueObject)
    } else {
        match entry_of(active, entries, "@value"@, 0) {
            None => Err(ErrorCode::InvalidValueObject),
            Some(JsonView::Null) => Ok(Seq::empty()),
            Some(v) => match literal_of(v) {
                None => Err(ErrorCode::InvalidValueObjectValue),
                Some(literal) => match value_type_of(active, t) {
                    Err(e) => Err(e),
                    Ok(ty) => match value_language_of(l, literal) {
                        Err(e) => Err(e),
                        Ok(language) => match value_direction_of(d) {
                            Err(e) => Err(e),
                            Ok(direction) => match index_of(entry_of(active, entries, "@index"@, 0)) {
                                Err(e) => Err(e),
                                Ok(index) => if free_floating(property) {
                                    Ok(Seq::empty())
                                } else {
                                    Ok(
                                        seq![
                                            IndexedObjectModel {
                                                inner: ObjectModel::Value(
                                                    ValueModel { literal, ty, language, direction },
                                                ),
                                                index,
                                            },
                                        ],
                                    )
                                },
                            },
                        },
                    },
                },
            },
        }
    }
}

/// The identifiers that the strings among the first `k` items stand for as types, if all are strings.
pub open spec fn types_of(active: ActiveContextModel, items: Seq<JsonView>, k: int) -> Option<Seq<IdModel>>
    decreases k,
{
    if k <= 0 || k > items.len() {
        Some(Seq::empty())
    } else {
        match (types_of(active, items, k - 1), items[k - 1]) {
            (Some(ts), JsonView::Text(s)) => Some(ts.push(reference_of(active, s, true))),
            _ => None,
        }
    }
}

/// The types that an `@type` entry of a node gives.
pub open spec fn node_types_of(active: ActiveContextModel, value: JsonView) -> Result<Seq<IdModel>, ErrorCode> {
    match value {
        JsonView::Text(s) => Ok(seq![reference_of(active, s, true)]),
        JsonView::Array(items) => match types_of(active, items, items.len() as int) {
            Some(ts) => Ok(ts),
            None => Err(ErrorCode::InvalidTypeValue),
        },
        _ => Err(ErrorCode::InvalidTypeValue),
    }
}

/// The position of the first of the properties that is `id`, if there is one.
pub open spec fn property_position<V>(ps: Seq<(IdModel, V)>, id: IdModel, k: int) -> Option<int>
    decreases ps.len() - k,
{
    if k < 0 || k >= ps.len() {
        None
    } else if ps[k].0 == id {
        Some(k)
    } else {
        property_position(ps, id, k + 1)
    }
}

/// The properties with `objects` added to those of `id`.
pub open spec fn with_objects<V>(ps: Seq<(IdModel, Seq<V>)>, id: IdModel, objects: Seq<V>) -> Seq<
    (IdModel, Seq<V>),
> {
    match property_position(ps, id, 0) {
        Some(i) => ps.update(i, (id, ps[i].1 + objects)),
        None => ps.push((id, objects)),
    }
}

/// The nodes that the first `k` objects are, with their indexes, if all are nodes.
pub open spec fn nodes_of(objects: Seq<IndexedObjectModel>, k: int) -> Option<Seq<IndexedNodeModel>>
    decreases k,
{
    if k <= 0 || k > objects.len() {
        Some(Seq::empty())
    } else {
        match (nodes_of(objects, k - 1), objects[k - 1].inner) {
            (Some(ns), ObjectModel::Node(n)) => Some(
                ns.push(IndexedNodeModel { inner: n, index: objects[k - 1].index }),
            ),
            _ => None,
        }
    }
}

/// A node in the making, with the index that it was found under.
pub struct NodeState {
    /// The node.
    pub node: NodeModel,
    /// The index.
    pub index: Option<Seq<char>>,
}

/// Whether a node has nothing but, at most, an identifier.
pub open spec fn is_bare(n: NodeModel) -> bool {
    n.types is None && n.graph is None && n.included is None && n.properties.len() == 0
        && n.reverse_properties is None
}

/// The objects of a property as the items of one list; where what stood
/// under the property was no array, unless they are one list already.
pub open spec fn as_list(objects: Seq<IndexedObjectModel>, array: bool) -> Seq<IndexedObjectModel> {
    if !array && objects.len() == 1 && objects[0].inner is List {
        objects
    } else {
        seq![IndexedObjectModel { inner: ObjectModel::List(objects), index: None }]
    }
}

/// How contexts that stand within a document are processed.
pub open spec fn embedded() -> Options {
    Options { override_protected: false, propagate: true, validate_scoped: true }
}

/// How the context of a term is processed.
pub open spec fn scoped() -> Options {
    Options { override_protected: true, propagate: true, validate_scoped: true }
}

/// The active context within an object: what comes of processing its `@context` entry, if it has one.
pub open spec fn context_within(active: ActiveContextModel, element: JsonView, env: Env) -> Result<
    ActiveContextModel,
    ErrorCode,
> {
    match element.get("@context"@) {
        Some(c) => process_value(active, c, env, embedded(), MAX_REMOTE_CONTEXTS as nat),
        None => Ok(active),
    }
}

/// The active context within the values of a term: what comes of processing the context of the term, if it has one.
pub open spec fn context_of_term(active: ActiveContextModel, def: Option<TermDefinitionModel>, env: Env) -> Result<
    ActiveContextModel,
    ErrorCode,
> {
    match def {
        Some(d) => match d.context {
            Some(c) => process_value(active, c, env, scoped(), MAX_REMOTE_CONTEXTS as nat),
            None => Ok(active),
        },
        None => Ok(active),
    }
}

/// The objects that the first `k` items of an array stand for, one after
/// the other. An array among the values of a list property is a list of its own.
pub open spec fn expand_items(
    active: ActiveContextModel,
    property: Option<Seq<char>>,
    items: Seq<JsonView>,
    k: int,
    env: Env,
) -> Result<Seq<IndexedObjectModel>, ErrorCode>
    decreases items, k, 0int,
{
    if k <= 0 || k > items.len() {
        Ok(Seq::empty())
    } else {
        match expand_items(active, property, items, k - 1, env) {
            Err(e) => Err(e),
            Ok(before) => match expand_element(active, property, items[k - 1], env) {
                Err(e) => Err(e),
                Ok(objects) => if items[k - 1] is Array && is_list_property(active, property) {
                    Ok(before.push(IndexedObjectModel { inner: ObjectModel::List(objects), index: None }))
                } else {
                    Ok(before + objects)
                },
            },
        }
    }
}

/// What the entry of `key` with `value` adds to a node in the making.
pub open spec fn expand_entry(
    active: ActiveContextModel,
    entries: Seq<(Seq<char>, JsonView)>,
    k: int,
    st: NodeState,
    env: Env,
) -> Result<NodeState, ErrorCode>
    decreases entries, entries.len() - k, 0int,
{
    if k < 0 || k >= entries.len() {
        Ok(st)
    } else {
        let key = entries[k].0;
        let value = entries[k].1;
        match expand_iri(active, key, false, true) {
            None => Ok(st),
            Some(e) => if e == "@id"@ {
                if st.node.id is Some {
                    Err(ErrorCode::CollidingKeywords)
                } else {
                    match value {
                        JsonView::Text(s) => Ok(
                            NodeState { node: NodeModel { id: Some(reference_of(active, s, false)), ..st.node }, ..st },
                        ),
                        _ => Err(ErrorCode::InvalidIdValue),
                    }
                }
            } else if e == "@type"@ {
                match node_types_of(active, value) {
                    Err(e) => Err(e),
                    Ok(ts) => Ok(
                        NodeState {
                            node: NodeModel {
                                types: Some(
                                    match st.node.types {
                                        Some(old) => old + ts,
                                        None => ts,
                                    },
                                ),
                                ..st.node
                            },
                            ..st
                        },
                    ),
                }
            } else if e == "@graph"@ {
                match expand_element(active, Some("@graph"@), value, env) {
                    Err(e) => Err(e),
                    Ok(g) => Ok(
                        NodeState {
                            node: NodeModel {
                                graph: Some(
                                    match st.node.graph {
                                        Some(old) => old + g,
                                        None => g,
                                    },
                                ),
                                ..st.node
                            },
                            ..st
                        },
                    ),
                }
            } else if e == "@included"@ {
                match expand_element(active, Some("@included"@), value, env) {
                    Err(e) => Err(e),
                    Ok(objects) => match nodes_of(objects, objects.len() as int) {
                        None => Err(ErrorCode::InvalidIncludedValue),
                        Some(ns) => Ok(
                            NodeState {
                                node: NodeModel {
                                    included: Some(
                                        match st.node.included {
                                            Some(old) => old + ns,
                                            None => ns,
                                        },
                                    ),
                                    ..st.node
                                },
                                ..st
                            },
                        ),
                    },
                }
            } else if e == "@index"@ {
                match value {
                    JsonView::Text(s) => Ok(NodeState { index: Some(s), ..st }),
                    _ => Err(ErrorCode::InvalidIndexValue),
                }
            } else if e == "@reverse"@ {
                match value {
                    JsonView::Object(reversed) => expand_reverse(active, reversed, 0, st, env),
                    _ => Err(ErrorCode::InvalidReverseValue),
                }
            } else if e == "@nest"@ {
                match value {
                    JsonView::Object(nested) => expand_nested(active, nested, st, env),
                    JsonView::Array(items) => expand_nests(active, items, 0, st, env),
                    _ => Err(ErrorCode::InvalidNestValue),
                }
            } else if is_keyword(e) || position(e, ':') is None {
                Ok(st)
            } else {
                expand_property(active, key, e, value, st, false, env)
            },
        }
    }
}

/// What the entries of a nested object add to a node in the making: what
/// they would add if they stood in the node itself. A nested object cannot hold a value.
pub open spec fn expand_nested(
    active: ActiveContextModel,
    nested: Seq<(Seq<char>, JsonView)>,
    st: NodeState,
    env: Env,
) -> Result<NodeState, ErrorCode>
    decreases nested, nested.len() + 1, 2int,
{
    if entry_of(active, nested, "@value"@, 0) is Some {
        Err(ErrorCode::InvalidNestValue)
    } else {
        expand_entries(active, nested, 0, st, env)
    }
}

/// What the nested objects from `k` on add to a node in the making, one
/// after the other. What is nested is an object.
pub open spec fn expand_nests(
    active: ActiveContextModel,
    items: Seq<JsonView>,
    k: int,
    st: NodeState,
    env: Env,
) -> Result<NodeState, ErrorCode>
    decreases items, items.len() - k, 3int,
{
    if k < 0 || k >= items.len() {
        Ok(st)
    } else {
        match items[k] {
            JsonView::Object(nested) => match expand_nested(active, nested, st, env) {
                Err(e) => Err(e),
                Ok(st1) => expand_nests(active, items, k + 1, st1, env),
            },
            _ => Err(ErrorCode::InvalidNestValue),
        }
    }
}

/// Whether a term has a container of the given kind.
pub open spec fn has_container(def: Option<TermDefinitionModel>, kind: ContainerKind) -> bool {
    match def {
        Some(d) => d.container.contains(kind),
        None => false,
    }
}

/// The tag that a key of a language map or of an index map stands for: none where it stands for `@none`.
pub open spec fn map_tag(active: ActiveContextModel, key: Seq<char>) -> Option<Seq<char>> {
    if expand_iri(active, key, false, true) == Some("@none"@) {
        None
    } else {
        Some(key)
    }
}

/// The strings among the items from `k` on, after `acc`, if all of them are strings or `null`.
pub open spec fn language_texts(items: Seq<JsonView>, k: int, acc: Seq<Seq<char>>) -> Option<Seq<Seq<char>>>
    decreases items.len() - k,
{
    if k < 0 || k >= items.len() {
        Some(acc)
    } else {
        match items[k] {
            JsonView::Null => language_texts(items, k + 1, acc),
            JsonView::Text(s) => language_texts(items, k + 1, acc.push(s)),
            _ => None,
        }
    }
}

/// The strings that stand under one language of a language map: one string,
/// or the strings of an array of strings, if the value is such.
pub open spec fn language_values(v: JsonView) -> Option<Seq<Seq<char>>> {
    match v {
        JsonView::Null => Some(Seq::empty()),
        JsonView::Text(s) => Some(seq![s]),
        JsonView::Array(items) => language_texts(items, 0, Seq::empty()),
        _ => None,
    }
}

/// The strings as values with the given language and direction.
pub open spec fn tagged(
    texts: Seq<Seq<char>>,
    language: Option<Seq<char>>,
    direction: Option<Direction>,
) -> Seq<IndexedObjectModel> {
    Seq::new(
        texts.len(),
        |i: int|
            IndexedObjectModel {
                inner: ObjectModel::Value(
                    ValueModel { literal: LiteralModel::Text(texts[i]), ty: None, language, direction },
                ),
                index: None,
            },
    )
}

/// The objects of a language map from its entry `k` on, after `acc`: the
/// strings under each language, as values with that language.
pub open spec fn language_map(
    active: ActiveContextModel,
    entries: Seq<(Seq<char>, JsonView)>,
    direction: Option<Direction>,
    k: int,
    acc: Seq<IndexedObjectModel>,
) -> Result<Seq<IndexedObjectModel>, ErrorCode>
    decreases entries.len() - k,
{
    if k < 0 || k >= entries.len() {
        Ok(acc)
    } else {
        match language_values(entries[k].1) {
            None => Err(ErrorCode::InvalidLanguageMapValue),
            Some(texts) => language_map(
                active,
                entries,
                direction,
                k + 1,
                acc + tagged(texts, map_tag(active, entries[k].0), direction),
            ),
        }
    }
}

/// What the keys of a map stand for: the indexes, the identifiers or the types of what stands under them.
#[derive(Clone, Copy, PartialEq, Eq, Structural, Debug)]
pub enum MapKind {
    /// The keys are indexes.
    Index,
    /// The keys are identifiers of nodes.
    Id,
    /// The keys are types of nodes.
    Type,
}

/// The types of a node with one more.
pub open spec fn with_type(n: NodeModel, t: IdModel) -> NodeModel {
    NodeModel {
        types: Some(
            match n.types {
                Some(ts) => ts + seq![t],
                None => seq![t],
            },
        ),
        ..n
    }
}

/// An object that stands under `key` in a map, with what the key gives
/// it: its index, where it has none of its own; its identifier, where it
/// is a node that has none of its own; or one more type, where it is a
/// node. A key that stands for `@none` gives nothing.
pub open spec fn tag_object(within: ActiveContextModel, o: IndexedObjectModel, kind: MapKind, key: Seq<char>) -> IndexedObjectModel {
    if map_tag(within, key) is None {
        o
    } else {
        match kind {
            MapKind::Index => if o.index is None {
                IndexedObjectModel { index: Some(key), ..o }
            } else {
                o
            },
            MapKind::Id => match o.inner {
                ObjectModel::Node(n) => if n.id is None {
                    IndexedObjectModel {
                        inner: ObjectModel::Node(NodeModel { id: Some(reference_of(within, key, false)), ..n }),
                        ..o
                    }
                } else {
                    o
                },
                _ => o,
            },
            MapKind::Type => match o.inner {
                ObjectModel::Node(n) => IndexedObjectModel {
                    inner: ObjectModel::Node(with_type(n, reference_of(within, key, true))),
                    ..o
                },
                _ => o,
            },
        }
    }
}

/// The objects that stand under `key` in a map, each with what the key gives it.
pub open spec fn with_tag(
    within: ActiveContextModel,
    objects: Seq<IndexedObjectModel>,
    kind: MapKind,
    key: Seq<char>,
) -> Seq<IndexedObjectModel> {
    Seq::new(objects.len(), |i: int| tag_object(within, objects[i], kind, key))
}

/// The objects of a map of indexes, identifiers or types from its entry
/// `k` on, after `acc`: what stands under each key, with what the key gives it.
pub open spec fn tagged_map(
    within: ActiveContextModel,
    key: Seq<char>,
    kind: MapKind,
    entries: Seq<(Seq<char>, JsonView)>,
    k: int,
    acc: Seq<IndexedObjectModel>,
    env: Env,
) -> Result<Seq<IndexedObjectModel>, ErrorCode>
    decreases entries, entries.len() - k, 0int,
{
    if k < 0 || k >= entries.len() {
        Ok(acc)
    } else {
        match expand_element(within, Some(key), entries[k].1, env) {
            Err(e) => Err(e),
            Ok(objects) => tagged_map(
                within,
                key,
                kind,
                entries,
                k + 1,
                acc + with_tag(within, objects, kind, entries[k].0),
                env,
            ),
        }
    }
}

/// The kind of map that the values of a term are, where the term has a
/// container for indexes, identifiers or types.
pub open spec fn map_kind(def: Option<TermDefinitionModel>) -> Option<MapKind> {
    if has_container(def, ContainerKind::Index) {
        Some(MapKind::Index)
    } else if has_container(def, ContainerKind::Id) {
        Some(MapKind::Id)
    } else if has_container(def, ContainerKind::Type) {
        Some(MapKind::Type)
    } else {
        None
    }
}

/// Whether each value of a term is the one object of a graph of its own:
/// the term has a container for graphs, and none for identifiers or indexes.
pub open spec fn holds_graphs(def: Option<TermDefinitionModel>) -> bool {
    has_container(def, ContainerKind::Graph) && !has_container(def, ContainerKind::Id) && !has_container(
        def,
        ContainerKind::Index,
    )
}

/// The node that has a graph with the one object `o`, and nothing else.
pub open spec fn graph_of(o: IndexedObjectModel) -> IndexedObjectModel {
    IndexedObjectModel { inner: ObjectModel::Node(NodeModel { graph: Some(seq![o]), ..empty_node() }), index: None }
}

/// The objects, each as the one object of a graph of its own.
pub open spec fn graphs_of(objects: Seq<IndexedObjectModel>) -> Seq<IndexedObjectModel> {
    Seq::new(objects.len(), |i: int| graph_of(objects[i]))
}

/// The objects that `value` stands for under the term `key`: those of a
/// language map, or of a map of indexes, identifiers or types, where the
/// term has such a container and the value is an object; else those of
/// the value itself.
pub open spec fn expand_mapped(
    active: ActiveContextModel,
    within: ActiveContextModel,
    key: Seq<char>,
    value: JsonView,
    env: Env,
) -> Result<Seq<IndexedObjectModel>, ErrorCode>
    decreases value, 0int, 1int,
{
    let def = active.get(key);
    if has_container(def, ContainerKind::Language) && value is Object {
        language_map(active, value->Object_0, direction_of_property(active, def), 0, Seq::empty())
    } else if map_kind(def) is Some && value is Object {
        tagged_map(within, key, map_kind(def)->0, value->Object_0, 0, Seq::empty(), env)
    } else {
        expand_element(within, Some(key), value, env)
    }
}

/// What the values of the property `key`, which stands for `iri`, add to
/// a node in the making. Where `flip` is set, the property stands within
/// an `@reverse` entry: it is taken the other way round.
pub open spec fn expand_property(
    active: ActiveContextModel,
    key: Seq<char>,
    iri: Seq<char>,
    value: JsonView,
    st: NodeState,
    flip: bool,
    env: Env,
) -> Result<NodeState, ErrorCode>
    decreases value, 1int, 0int,
{
    let def = active.get(key);
    match context_of_term(active, def, env) {
        Err(e) => Err(e),
        Ok(within) => match expand_mapped(active, within, key, value, env) {
            Err(e) => Err(e),
            Ok(objects) => {
                let objects = if holds_graphs(def) {
                    graphs_of(objects)
                } else {
                    objects
                };
                let objects = if is_list_property(active, Some(key)) {
                    as_list(objects, value is Array)
                } else {
                    objects
                };
                if (def is Some && def->0.reverse) != flip {
                    match nodes_of(objects, objects.len() as int) {
                        None => Err(ErrorCode::InvalidReversePropertyValue),
                        Some(ns) => if ns.len() == 0 {
                            Ok(st)
                        } else {
                            Ok(
                                NodeState {
                                    node: NodeModel {
                                        reverse_properties: Some(
                                            with_objects(
                                                match st.node.reverse_properties {
                                                    Some(old) => old,
                                                    None => Seq::empty(),
                                                },
                                                id_of(iri),
                                                ns,
                                            ),
                                        ),
                                        ..st.node
                                    },
                                    ..st
                                },
                            )
                        },
                    }
                } else if objects.len() == 0 {
                    Ok(st)
                } else {
                    Ok(
                        NodeState {
                            node: NodeModel {
                                properties: with_objects(st.node.properties, id_of(iri), objects),
                                ..st.node
                            },
                            ..st
                        },
                    )
                }
            },
        },
    }
}

/// What the entries of an `@reverse` entry from `k` on add to a node in the
/// making: each is a property taken the other way round.
pub open spec fn expand_reverse(
    active: ActiveContextModel,
    reversed: Seq<(Seq<char>, JsonView)>,
    k: int,
    st: NodeState,
    env: Env,
) -> Result<NodeState, ErrorCode>
    decreases reversed, reversed.len() - k, 2int,
{
    if k < 0 || k >= reversed.len() {
        Ok(st)
    } else {
        let step = match expand_iri(active, reversed[k].0, false, true) {
            None => Ok(st),
            Some(e) => if is_keyword(e) || position(e, ':') is None {
                Ok(st)
            } else {
                expand_property(active, reversed[k].0, e, reversed[k].1, st, true, env)
            },
        };
        match step {
            Err(e) => Err(e),
            Ok(st1) => expand_reverse(active, reversed, k + 1, st1, env),
        }
    }
}

/// The node that the entries from `k` on make of a node in the making.
pub open spec fn expand_entries(
    active: ActiveContextModel,
    entries: Seq<(Seq<char>, JsonView)>,
    k: int,
    st: NodeState,
    env: Env,
) -> Result<NodeState, ErrorCode>
    decreases entries, entries.len() - k, 1int,
{
    if k < 0 || k >= entries.len() {
        Ok(st)
    } else {
        match expand_entry(active, entries, k, st, env) {
            Err(e) => Err(e),
            Ok(st1) => expand_entries(active, entries, k + 1, st1, env),
        }
    }
}

/// The objects that an object stands for: a value, a list, the items of
/// a set, or a node.
pub open spec fn expand_object(
    active: ActiveContextModel,
    property: Option<Seq<char>>,
    entries: Seq<(Seq<char>, JsonView)>,
    env: Env,
) -> Result<Seq<IndexedObjectModel>, ErrorCode>
    decreases entries, entries.len() + 1, 0int,
{
    if entry_of(active, entries, "@value"@, 0) is Some {
        expand_value_object(active, property, entries)
    } else if entry_of(active, entries, "@list"@, 0) is Some {
        if !keys_among(active, entries, list_object_keys(), 0) {
            Err(ErrorCode::InvalidSetOrListObject)
        } else {
            proof {
                lemma_entry_of_within(active, entries, "@list"@, 0);
            }
            match expand_element(active, property, entry_of(active, entries, "@list"@, 0)->0, env) {
                Err(e) => Err(e),
                Ok(items) => match index_of(entry_of(active, entries, "@index"@, 0)) {
                    Err(e) => Err(e),
                    Ok(index) => if free_floating(property) {
                        Ok(Seq::empty())
                    } else {
                        Ok(seq![IndexedObjectModel { inner: ObjectModel::List(items), index }])
                    },
                },
            }
        }
    } else if entry_of(active, entries, "@set"@, 0) is Some {
        if !keys_among(active, entries, set_object_keys(), 0) {
            Err(ErrorCode::InvalidSetOrListObject)
        } else {
            proof {
                lemma_entry_of_within(active, entries, "@set"@, 0);
            }
            expand_element(active, property, entry_of(active, entries, "@set"@, 0)->0, env)
        }
    } else {
        match expand_entries(active, entries, 0, NodeState { node: empty_node(), index: None }, env) {
            Err(e) => Err(e),
            Ok(st) => if free_floating(property) && is_bare(st.node) {
                Ok(Seq::empty())
            } else {
                Ok(seq![IndexedObjectModel { inner: ObjectModel::Node(st.node), index: st.index }])
            },
        }
    }
}

/// What `entry_of` finds is the value of one of the entries.
pub proof fn lemma_entry_of_within(
    active: ActiveContextModel,
    entries: Seq<(Seq<char>, JsonView)>,
    keyword: Seq<char>,
    k: int,
)
    requires
        entry_of(active, entries, keyword, k) is Some,
    ensures
        exists|i: int| 0 <= i < entries.len() && (#[trigger] entries[i]).1 == entry_of(active, entries, keyword, k)->0,
    decreases entries.len() - k,
{
    if 0 <= k < entries.len() {
        if expand_iri(active, entries[k].0, false, true) == Some(keyword) {
            assert(entries[k].1 == entry_of(active, entries, keyword, k)->0);
        } else {
            lemma_entry_of_within(active, entries, keyword, k + 1);
        }
    }
}

/// The objects that `element` stands for as a value of `property`, or,
/// where there is no property, at the top of a document.
pub open spec fn expand_element(
    active: ActiveContextModel,
    property: Option<Seq<char>>,
    element: JsonView,
    env: Env,
) -> Result<Seq<IndexedObjectModel>, ErrorCode>
    decreases element, 0int, 0int,
{
    match element {
        JsonView::Null => Ok(Seq::empty()),
        JsonView::Array(items) => expand_items(active, property, items, items.len() as int, env),
        JsonView::Object(entries) => match context_within(active, element, env) {
            Err(e) => Err(e),
            Ok(within) => expand_object(within, property, entries, env),
        },
        _ => if free_floating(property) {
            Ok(Seq::empty())
        } else {
            Ok(
                seq![
                    IndexedObjectModel {
                        inner: expand_scalar(active, property->0, literal_of(element)->0),
                        index: None,
                    },
                ],
            )
        },
    }
}

/// The objects of a document: where all that it holds at its top is one
/// node with a graph and nothing else, the objects of that graph.
pub open spec fn unwrapped(objects: Seq<IndexedObjectModel>) -> Seq<IndexedObjectModel> {
    if objects.len() == 1 && objects[0].index is None && (objects[0].inner matches ObjectModel::Node(n)
        && n.id is None && n.types is None && n.graph is Some && n.included is None && n.properties.len() == 0
        && n.reverse_properties is None) {
        objects[0].inner->Node_0.graph->0
    } else {
        objects
    }
}

/// The expansion of the document `doc` in the active context `active`.
///
/// `base` is the IRI of the document, and `found` says what the loader finds for each IRI.
pub open spec fn expanded(
    active: ActiveContextModel,
    doc: JsonView,
    base: Option<Seq<char>>,
    found: spec_fn(Seq<char>) -> Option<(Seq<char>, JsonView)>,
) -> Result<Seq<IndexedObjectModel>, ErrorCode> {
    match expand_element(active, None, doc, Env { base, found, remote: Seq::empty() }) {
        Err(e) => Err(e),
        Ok(objects) => Ok(unwrapped(objects)),
    }
}

} // verus!
