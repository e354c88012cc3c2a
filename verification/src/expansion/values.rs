//! The expansion of identifiers and values.

use vstd::prelude::*;
use vstd::string::*;

use crate::context::{clone_text, ActiveContext, TermDefinition};
use crate::error::ErrorCode;
use crate::expansion::model::{
    direction_of_property,
    entry_of,
    expand_scalar,
    expand_value_object,
    free_floating,
    id_of,
    index_of,
    is_list_property,
    keys_among,
    language_of_property,
    literal_of,
    node_reference,
    reference_of,
    value_direction_of,
    value_language_of,
    value_object_keys,
    value_type_of,
};
use crate::iri::{BlankIdBuf, IriBuf};
use crate::json::{entries_view, Json, JsonView};
use crate::object::id::{Id, ValidId};
use crate::object::indexed::Indexed;
use crate::object::model::{
    empty_node,
    id_model,
    node_model,
    object_model,
    objects_model,
    properties_model,
    IndexedObjectModel,
    NodeId,
};
use crate::object::node::{Node, Object, Properties};
use crate::object::value::{text_of, Direction, Literal, Value};
use crate::syntax::context::{ContainerKind, Nullable};
use crate::text::text_eq;

verus! {

/// An object of the expanded form.
pub type ExpandedObject = Object<IriBuf, BlankIdBuf>;

/// A node of the expanded form.
pub type ExpandedNode = Node<IriBuf, BlankIdBuf>;

/// The identifier that the string `s` is.
pub fn make_id(s: String) -> (r: NodeId)
    ensures
        id_model(r) == id_of(s@),
{
    match IriBuf::new(s) {
        Ok(iri) => Id::Valid(ValidId::Iri(iri)),
        Err(s) => match BlankIdBuf::new(s) {
            Ok(b) => Id::Valid(ValidId::Blank(b)),
            Err(s) => Id::Invalid(s),
        },
    }
}

/// Whether two identifiers are the same.
pub fn same_id(a: &NodeId, b: &NodeId) -> (r: bool)
    ensures
        r == (id_model(*a) == id_model(*b)),
{
    match (a, b) {
        (Id::Valid(ValidId::Iri(x)), Id::Valid(ValidId::Iri(y))) => text_eq(x.as_str(), y.as_str()),
        (Id::Valid(ValidId::Blank(x)), Id::Valid(ValidId::Blank(y))) => text_eq(x.as_str(), y.as_str()),
        (Id::Invalid(x), Id::Invalid(y)) => text_eq(x.as_str(), y.as_str()),
        _ => false,
    }
}

/// The identifier that `s` stands for as a reference to a node.
pub fn reference(active: &ActiveContext, s: &str, vocab: bool) -> (r: NodeId)
    ensures
        id_model(r) == reference_of(active@, s@, vocab),
{
    match active.expand_iri(s, true, vocab) {
        Some(iri) => make_id(iri),
        None => Id::Invalid(s.to_owned()),
    }
}

/// The node without anything.
pub fn new_node() -> (r: ExpandedNode)
    ensures
        node_model(r) == empty_node(),
{
    let r = Node {
        id: None,
        types: None,
        graph: None,
        included: None,
        properties: Properties { entries: Vec::new() },
        reverse_properties: None,
    };
    assert(properties_model(r.properties.entries@) =~= Seq::empty());
    r
}

/// The node that has the identifier `id` and nothing else.
pub fn node_with_id(id: NodeId) -> (r: ExpandedNode)
    ensures
        node_model(r) == node_reference(id_model(id)),
{
    let r = Node {
        id: Some(id),
        types: None,
        graph: None,
        included: None,
        properties: Properties { entries: Vec::new() },
        reverse_properties: None,
    };
    assert(properties_model(r.properties.entries@) =~= Seq::empty());
    r
}

/// The language that the strings of a property are given, if any.
fn property_language(active: &ActiveContext, def: &Option<&TermDefinition>) -> (r: Option<String>)
    ensures
        text_of(r) == language_of_property(
            active@,
            match *def {
                Some(d) => Some(d@),
                None => None,
            },
        ),
{
    match def {
        Some(d) => match &d.language {
            Some(Nullable::Given(l)) => Some(l.clone()),
            Some(Nullable::Null) => None,
            None => clone_text(&active.language),
        },
        None => clone_text(&active.language),
    }
}

/// The direction that the strings of a property are given, if any.
pub fn property_direction(active: &ActiveContext, def: &Option<&TermDefinition>) -> (r: Option<Direction>)
    ensures
        r == direction_of_property(
            active@,
            match *def {
                Some(d) => Some(d@),
                None => None,
            },
        ),
{
    match def {
        Some(d) => match &d.direction {
            Some(Nullable::Given(l)) => Some(*l),
            Some(Nullable::Null) => None,
            None => active.direction,
        },
        None => active.direction,
    }
}

/// The object that a scalar stands for as a value of `property`.
pub fn expand_scalar_exec(active: &ActiveContext, property: &str, literal: Literal) -> (r: ExpandedObject)
    ensures
        object_model(r) == expand_scalar(active@, property@, literal@),
{
    let def = active.get(property);
    let typ: Option<&str> = match &def {
        Some(d) => match &d.typ {
            Some(t) => Some(t.as_str()),
            None => None,
        },
        None => None,
    };
    let as_id = match typ {
        Some(t) => text_eq(t, "@id"),
        None => false,
    };
    let as_vocab = match typ {
        Some(t) => text_eq(t, "@vocab"),
        None => false,
    };
    if let Literal::Text(s) = &literal {
        if as_id {
            return Object::Node(node_with_id(reference(active, s.as_str(), false)));
        } else if as_vocab {
            return Object::Node(node_with_id(reference(active, s.as_str(), true)));
        }
    }
    let typed = match typ {
        Some(t) => !(as_id || as_vocab || text_eq(t, "@none")),
        None => false,
    };
    let ty: Option<IriBuf> = match typ {
        Some(t) => {
            if typed {
                IriBuf::from_str(t)
            } else {
                None
            }
        },
        None => None,
    };
    let text = match &literal {
        Literal::Text(_) => true,
        _ => false,
    };
    let plain = text && !typed;
    let language = if plain {
        property_language(active, &def)
    } else {
        None
    };
    let direction = if plain {
        property_direction(active, &def)
    } else {
        None
    };
    Object::Value(Value { literal, ty, language, direction })
}

/// The scalar that a JSON value is, if it is one.
pub fn literal_of_exec(j: &Json) -> (r: Option<Literal>)
    ensures
        match r {
            Some(l) => literal_of(j@) == Some(l@),
            None => literal_of(j@) is None,
        },
{
    match j {
        Json::Boolean(b) => Some(Literal::Boolean(*b)),
        Json::Number(n) => Some(Literal::Number(n.clone())),
        Json::Text(s) => Some(Literal::Text(s.clone())),
        _ => None,
    }
}

/// Whether what stands under `property` stands free.
pub fn check_free_floating(property: &Option<&str>) -> (r: bool)
    ensures
        r == free_floating(
            match *property {
                Some(p) => Some(p@),
                None => None,
            },
        ),
{
    match property {
        None => true,
        Some(p) => text_eq(p, "@graph"),
    }
}

/// The text of an optional string slice.
pub open spec fn slice_text(s: Option<&str>) -> Option<Seq<char>> {
    match s {
        Some(s) => Some(s@),
        None => None,
    }
}

/// Whether the values of `property` are the items of a list.
pub fn check_list_property(active: &ActiveContext, property: &Option<&str>) -> (r: bool)
    ensures
        r == is_list_property(active@, slice_text(*property)),
{
    match property {
        Some(p) => match active.get(p) {
            Some(d) => d.has_container(ContainerKind::List),
            None => false,
        },
        None => false,
    }
}

/// The place of the first of the entries whose key stands for `keyword`.
pub fn find_entry(active: &ActiveContext, entries: &Vec<(String, Json)>, keyword: &str) -> (r: Option<usize>)
    ensures
        match r {
            Some(i) => i < entries.len() && entry_of(active@, entries_view(entries@), keyword@, 0) == Some(
                entries@[i as int].1@,
            ),
            None => entry_of(active@, entries_view(entries@), keyword@, 0) is None,
        },
{
    let ghost views = entries_view(entries@);
    let mut k: usize = 0;
    while k < entries.len()
        invariant
            k <= entries.len(),
            views == entries_view(entries@),
            entry_of(active@, views, keyword@, k as int) == entry_of(active@, views, keyword@, 0),
        decreases entries.len() - k,
    {
        assert(views[k as int] == (entries@[k as int].0@, entries@[k as int].1@));
        let expanded = active.expand_iri(entries[k].0.as_str(), false, true);
        let hit = match &expanded {
            Some(e) => text_eq(e.as_str(), keyword),
            None => false,
        };
        if hit {
            return Some(k);
        }
        k = k + 1;
    }
    None
}

/// The texts of string slices.
pub open spec fn slice_texts(ss: Seq<&str>) -> Seq<Seq<char>> {
    Seq::new(ss.len(), |i: int| ss[i]@)
}

/// Whether `s` is among `allowed`.
fn is_allowed(allowed: &Vec<&str>, s: &str) -> (r: bool)
    ensures
        r == slice_texts(allowed@).contains(s@),
{
    let mut i: usize = 0;
    while i < allowed.len()
        invariant
            i <= allowed.len(),
            forall|j: int| 0 <= j < i ==> slice_texts(allowed@)[j] != s@,
        decreases allowed.len() - i,
    {
        if text_eq(allowed[i], s) {
            assert(slice_texts(allowed@)[i as int] == s@);
            return true;
        }
        i = i + 1;
    }
    false
}

/// Whether the key of each entry stands for one of the keywords `allowed`.
pub fn check_keys_among(active: &ActiveContext, entries: &Vec<(String, Json)>, allowed: &Vec<&str>) -> (r: bool)
    ensures
        r == keys_among(active@, entries_view(entries@), slice_texts(allowed@), 0),
{
    let ghost views = entries_view(entries@);
    let mut k: usize = 0;
    while k < entries.len()
        invariant
            k <= entries.len(),
            views == entries_view(entries@),
            keys_among(active@, views, slice_texts(allowed@), k as int) == keys_among(
                active@,
                views,
                slice_texts(allowed@),
                0,
            ),
        decreases entries.len() - k,
    {
        assert(views[k as int] == (entries@[k as int].0@, entries@[k as int].1@));
        let expanded = active.expand_iri(entries[k].0.as_str(), false, true);
        let ok = match &expanded {
            Some(e) => is_allowed(allowed, e.as_str()),
            None => false,
        };
        if !ok {
            return false;
        }
        k = k + 1;
    }
    true
}

/// The index that an `@index` entry gives.
pub fn read_index(entry: Option<&Json>) -> (r: Result<Option<String>, ErrorCode>)
    ensures
        match r {
            Ok(i) => index_of(
                match entry {
                    Some(j) => Some(j@),
                    None => None,
                },
            ) == Ok::<Option<Seq<char>>, ErrorCode>(text_of(i)),
            Err(e) => index_of(
                match entry {
                    Some(j) => Some(j@),
                    None => None,
                },
            ) == Err::<Option<Seq<char>>, ErrorCode>(e),
        },
{
    match entry {
        None => Ok(None),
        Some(Json::Text(s)) => Ok(Some(s.clone())),
        Some(_) => Err(ErrorCode::InvalidIndexValue),
    }
}

/// The value of the entry at `place`, if there is a place.
pub fn entry_at(entries: &Vec<(String, Json)>, place: Option<usize>) -> (r: Option<&Json>)
    requires
        place matches Some(i) ==> i < entries.len(),
    ensures
        match (place, r) {
            (Some(i), Some(j)) => *j == entries@[i as int].1,
            (None, None) => true,
            _ => false,
        },
{
    match place {
        Some(i) => Some(&entries[i].1),
        None => None,
    }
}

/// The plain data of an optional JSON value.
pub open spec fn optional_json(j: Option<&Json>) -> Option<JsonView> {
    match j {
        Some(j) => Some(j@),
        None => None,
    }
}

/// The type that the `@type` entry of a value object gives.
fn read_value_type(active: &ActiveContext, entry: Option<&Json>) -> (r: Result<Option<IriBuf>, ErrorCode>)
    ensures
        match r {
            Ok(t) => value_type_of(active@, optional_json(entry)) == Ok::<Option<Seq<char>>, ErrorCode>(
                match t {
                    Some(t) => Some(t@),
                    None => None,
                },
            ),
            Err(e) => value_type_of(active@, optional_json(entry)) == Err::<Option<Seq<char>>, ErrorCode>(e),
        },
{
    match entry {
        None => Ok(None),
        Some(Json::Text(s)) => match active.expand_iri(s.as_str(), true, true) {
            Some(iri) => match IriBuf::new(iri) {
                Ok(iri) => Ok(Some(iri)),
                Err(_) => Err(ErrorCode::InvalidTypedValue),
            },
            None => Err(ErrorCode::InvalidTypedValue),
        },
        Some(_) => Err(ErrorCode::InvalidTypedValue),
    }
}

/// The language that the `@language` entry of a value object gives.
fn read_value_language(entry: Option<&Json>, literal: &Literal) -> (r: Result<Option<String>, ErrorCode>)
    ensures
        match r {
            Ok(l) => value_language_of(optional_json(entry), literal@) == Ok::<Option<Seq<char>>, ErrorCode>(
                text_of(l),
            ),
            Err(e) => value_language_of(optional_json(entry), literal@) == Err::<Option<Seq<char>>, ErrorCode>(e),
        },
{
    match entry {
        None => Ok(None),
        Some(Json::Null) => Ok(None),
        Some(Json::Text(s)) => match literal {
            Literal::Text(_) => Ok(Some(s.clone())),
            _ => Err(ErrorCode::InvalidLanguageTaggedValue),
        },
        Some(_) => Err(ErrorCode::InvalidLanguageTaggedString),
    }
}

/// The direction that the `@direction` entry of a value object gives.
fn read_value_direction(entry: Option<&Json>) -> (r: Result<Option<Direction>, ErrorCode>)
    ensures
        r == value_direction_of(optional_json(entry)),
{
    match entry {
        None => Ok(None),
        Some(Json::Null) => Ok(None),
        Some(Json::Text(s)) => {
            if text_eq(s.as_str(), "ltr") {
                Ok(Some(Direction::Ltr))
            } else if text_eq(s.as_str(), "rtl") {
                Ok(Some(Direction::Rtl))
            } else {
                Err(ErrorCode::InvalidBaseDirection)
            }
        },
        Some(_) => Err(ErrorCode::InvalidBaseDirection),
    }
}

/// The keywords that may stand in a value object.
fn value_keys() -> (r: Vec<&'static str>)
    ensures
        slice_texts(r@) == value_object_keys(),
{
    let mut r: Vec<&'static str> = Vec::new();
    r.push("@value");
    r.push("@type");
    r.push("@language");
    r.push("@direction");
    r.push("@index");
    r.push("@context");
    assert(slice_texts(r@) =~= value_object_keys());
    r
}

/// The objects that a value object stands for.
pub fn expand_value_object_exec(
    active: &ActiveContext,
    property: &Option<&str>,
    entries: &Vec<(String, Json)>,
) -> (r: Result<Vec<Indexed<ExpandedObject>>, ErrorCode>)
    ensures
        match r {
            Ok(os) => expand_value_object(active@, slice_text(*property), entries_view(entries@)) == Ok::<
                Seq<IndexedObjectModel>,
                ErrorCode,
            >(objects_model(os@)),
            Err(e) => expand_value_object(active@, slice_text(*property), entries_view(entries@)) == Err::<
                Seq<IndexedObjectModel>,
                ErrorCode,
            >(e),
        },
{
    let t = entry_at(entries, find_entry(active, entries, "@type"));
    let l = entry_at(entries, find_entry(active, entries, "@language"));
    let d = entry_at(entries, find_entry(active, entries, "@direction"));
    let mut os: Vec<Indexed<ExpandedObject>> = Vec::new();
    assert(objects_model(os@) =~= Seq::empty());
    if !check_keys_among(active, entries, &value_keys()) {
        return Err(ErrorCode::InvalidValueObject);
    }
    if t.is_some() && (l.is_some() || d.is_some()) {
        return Err(ErrorCode::InvalidValueObject);
    }
    let v = match entry_at(entries, find_entry(active, entries, "@value")) {
        None => {
            return Err(ErrorCode::InvalidValueObject);
        },
        Some(v) => v,
    };
    if v.is_null() {
        return Ok(os);
    }
    let literal = match literal_of_exec(v) {
        None => {
            return Err(ErrorCode::InvalidValueObjectValue);
        },
        Some(l) => l,
    };
    let ty = match read_value_type(active, t) {
        Err(e) => {
            return Err(e);
        },
        Ok(t) => t,
    };
    let language = match read_value_language(l, &literal) {
        Err(e) => {
            return Err(e);
        },
        Ok(l) => l,
    };
    let direction = match read_value_direction(d) {
        Err(e) => {
            return Err(e);
        },
        Ok(d) => d,
    };
    let index = match read_index(entry_at(entries, find_entry(active, entries, "@index"))) {
        Err(e) => {
            return Err(e);
        },
        Ok(i) => i,
    };
    if check_free_floating(property) {
        return Ok(os);
    }
    crate::object::model::push_object(
        &mut os,
        Indexed { inner: Object::Value(Value { literal, ty, language, direction }), index },
    );
    Ok(os)
}

} // verus!
