//! The compaction of objects.

use vstd::prelude::*;
use vstd::string::*;

use crate::assoc::{assoc_find, assoc_position};
use crate::compaction::model::{
    as_array, best_term, compact_document, compact_inner, compact_iri, compact_list_items, compact_node,
    compact_nodes, compact_object, compact_objects, compact_properties, compact_property, compact_reverse,
    compact_types, compacted_array, entry_if, id_text, index_key, keyword_alias, language_key, literal_json,
    mapped_step, value_object, with_mapped, with_value, wrapped, Options,
};
use crate::compaction::terms::{
    best_map_term_exec, best_term_exec, compact_iri_exec, keyword_alias_exec,
};
use crate::context::{ActiveContext, ActiveContextModel};
use crate::error::ErrorCode;
use crate::expansion::model::{expand_scalar, is_bare};
use crate::expansion::maps::map_tag_exec;
use crate::expansion::nodes::check_bare;
use crate::expansion::values::{expand_scalar_exec, property_direction, same_id, ExpandedNode, ExpandedObject};
use crate::iri::{BlankIdBuf, IriBuf};
use crate::json::{entries_view, items_view, lemma_entries_view, push_entry, push_item, Json, JsonView};
use crate::object::id::{Id, ValidId};
use crate::object::indexed::Indexed;
use crate::object::model::{
    id_model, ids_model, indexed_node_model, indexed_object_model, node_model, nodes_model, object_model,
    objects_model, properties_model, reverse_properties_model, value_model, IdModel, IndexedNodeModel,
    IndexedObjectModel, NodeId, ObjectModel,
};
use crate::object::node::{Object, PropertyEntry, ReversePropertyEntry};
use crate::object::value::{same_text, text_of, Literal, Value};
use crate::syntax::context::{direction_as_str, ContainerKind};
use crate::text::text_eq;

verus! {

/// The text of an identifier.
pub fn id_as_str(id: &NodeId) -> (r: &str)
    ensures
        r@ == id_text(id_model(*id)),
{
    match id {
        Id::Valid(ValidId::Iri(i)) => i.as_str(),
        Id::Valid(ValidId::Blank(b)) => b.as_str(),
        Id::Invalid(s) => s.as_str(),
    }
}

/// A scalar as a JSON value.
pub fn literal_to_json(l: &Literal) -> (r: Json)
    ensures
        r@ == literal_json(l@),
{
    match l {
        Literal::Boolean(b) => Json::Boolean(*b),
        Literal::Number(n) => Json::Number(n.clone()),
        Literal::Text(s) => Json::Text(s.clone()),
    }
}

/// A copy of a scalar.
fn clone_literal(l: &Literal) -> (r: Literal)
    ensures
        r@ == l@,
{
    match l {
        Literal::Boolean(b) => Literal::Boolean(*b),
        Literal::Number(n) => Literal::Number(n.clone()),
        Literal::Text(s) => Literal::Text(s.clone()),
    }
}

/// Adds the entry of `key` with `value` at the end of `entries`, where there is a value.
fn push_if(entries: &mut Vec<(String, Json)>, key: &str, value: Option<Json>)
    ensures
        entries_view(final(entries)@) == entries_view(old(entries)@) + entry_if(
            key@,
            match value {
                Some(v) => Some(v@),
                None => None,
            },
        ),
{
    let ghost before = entries_view(entries@);
    match value {
        Some(v) => {
            push_entry(entries, key, v);
            assert(before.push((key@, v@)) =~= before + seq![(key@, v@)]);
        },
        None => {
            assert(before =~= before + Seq::<(Seq<char>, JsonView)>::empty());
        },
    }
}

/// The string `s` as a JSON value, where there is one.
fn optional_text(s: &Option<String>) -> (r: Option<Json>)
    ensures
        match (r, *s) {
            (Some(j), Some(s)) => j@ == JsonView::Text(s@),
            (None, None) => true,
            _ => false,
        },
{
    match s {
        Some(s) => Some(Json::text(s.as_str())),
        None => None,
    }
}

/// Whether two values are the same.
fn same_value(a: &Value<IriBuf>, b: &Value<IriBuf>) -> (r: bool)
    ensures
        r == (value_model(*a) == value_model(*b)),
{
    let same_ty = match (&a.ty, &b.ty) {
        (Some(x), Some(y)) => text_eq(x.as_str(), y.as_str()),
        (None, None) => true,
        _ => false,
    };
    let same_direction = match (&a.direction, &b.direction) {
        (Some(x), Some(y)) => *x == *y,
        (None, None) => true,
        _ => false,
    };
    a.literal.same(&b.literal) && same_ty && same_text(&a.language, &b.language) && same_direction
}

/// A value written in full.
fn value_object_exec(active: &ActiveContext, v: &Value<IriBuf>, index: &Option<String>) -> (r: Result<
    Json,
    ErrorCode,
>)
    ensures
        match r {
            Ok(j) => value_object(active@, value_model(*v), text_of(*index)) == Ok::<JsonView, ErrorCode>(j@),
            Err(e) => value_object(active@, value_model(*v), text_of(*index)) == Err::<JsonView, ErrorCode>(e),
        },
{
    let ty = match &v.ty {
        Some(t) => match compact_iri_exec(active, t.as_str(), true, false, false) {
            Ok(c) => Some(Json::Text(c)),
            Err(e) => {
                return Err(e);
            },
        },
        None => None,
    };
    let mut entries: Vec<(String, Json)> = Vec::new();
    assert(entries_view(entries@) =~= Seq::empty());
    push_entry(&mut entries, keyword_alias_exec(active, "@value").as_str(), literal_to_json(&v.literal));
    assert(entries_view(entries@) =~= seq![(keyword_alias(active@, "@value"@), literal_json(v.literal@))]);
    push_if(&mut entries, keyword_alias_exec(active, "@type").as_str(), ty);
    push_if(&mut entries, keyword_alias_exec(active, "@language").as_str(), optional_text(&v.language));
    let direction = match &v.direction {
        Some(d) => Some(Json::text(direction_as_str(*d))),
        None => None,
    };
    push_if(&mut entries, keyword_alias_exec(active, "@direction").as_str(), direction);
    push_if(&mut entries, keyword_alias_exec(active, "@index").as_str(), optional_text(index));
    Ok(Json::Object(entries))
}

/// Adds `value` under `key`.
pub fn add_value(entries: &mut Vec<(String, Json)>, key: String, value: Json, array: bool)
    ensures
        entries_view(final(entries)@) == with_value(entries_view(old(entries)@), key@, value@, array),
{
    proof {
        lemma_entries_view(entries@);
    }
    let ghost before = entries@;
    let ghost m = entries_view(entries@);
    match assoc_find(entries, key.as_str()) {
        Some(i) => {
            let old_entry = entries.remove(i);
            assert(m[i as int] == (old_entry.0@, old_entry.1@));
            let merged = match old_entry.1 {
                Json::Array(items) => {
                    let mut items = items;
                    push_item(&mut items, value);
                    Json::Array(items)
                },
                other => {
                    let mut items: Vec<Json> = Vec::new();
                    assert(items_view(items@) =~= Seq::empty());
                    let ghost o = other@;
                    push_item(&mut items, other);
                    push_item(&mut items, value);
                    assert(items_view(items@) =~= seq![o, value@]);
                    Json::Array(items)
                },
            };
            entries.insert(i, (key, merged));
            assert(entries_view(entries@) =~= m.update(i as int, (key@, merged@))) by {
                assert forall|j: int| 0 <= j < entries@.len() implies #[trigger] entries_view(entries@)[j]
                    == m.update(i as int, (key@, merged@))[j] by {
                    if j != i {
                        assert(entries@[j] == before[j]);
                        assert(m[j] == (before[j].0@, before[j].1@));
                    }
                }
            }
        },
        None => {
            let v = if array {
                let mut items: Vec<Json> = Vec::new();
                assert(items_view(items@) =~= Seq::empty());
                push_item(&mut items, value);
                assert(items_view(items@) =~= seq![value@]);
                Json::Array(items)
            } else {
                value
            };
            push_entry(entries, key.as_str(), v);
        },
    }
}

/// Whether the values of `key` are always written in an array.
fn check_as_array(active: &ActiveContext, key: &str, opts: Options) -> (r: bool)
    ensures
        r == as_array(active@, key@, opts),
{
    !opts.compact_arrays || match active.get(key) {
        Some(d) => d.has_container(ContainerKind::Unordered) || d.has_container(ContainerKind::List),
        None => false,
    }
}

/// An array, or its one item where arrays of one item are to be compacted.
fn compact_array(items: Vec<Json>, opts: Options) -> (r: Json)
    ensures
        r@ == compacted_array(items_view(items@), opts),
{
    if items.len() == 1 && opts.compact_arrays {
        let mut items = items;
        let ghost first = items@[0];
        assert(items_view(items@)[0] == first@);
        items.remove(0)
    } else {
        Json::Array(items)
    }
}

/// The identifiers of `types`, each compacted.
fn compact_types_exec(active: &ActiveContext, types: &Vec<NodeId>) -> (r: Result<Vec<Json>, ErrorCode>)
    ensures
        match r {
            Ok(js) => compact_types(active@, ids_model(types@), types.len() as int) == Ok::<
                Seq<JsonView>,
                ErrorCode,
            >(items_view(js@)),
            Err(e) => compact_types(active@, ids_model(types@), types.len() as int) == Err::<
                Seq<JsonView>,
                ErrorCode,
            >(e),
        },
{
    let ghost m = ids_model(types@);
    let mut js: Vec<Json> = Vec::new();
    assert(items_view(js@) =~= Seq::empty());
    let mut k: usize = 0;
    while k < types.len()
        invariant
            k <= types.len(),
            m == ids_model(types@),
            compact_types(active@, m, k as int) == Ok::<Seq<JsonView>, ErrorCode>(items_view(js@)),
        decreases types.len() - k,
    {
        assert(m[k as int] == id_model(types@[k as int]));
        match compact_iri_exec(active, id_as_str(&types[k]), true, false, false) {
            Err(e) => {
                proof {
                    assert(compact_types(active@, m, k + 1) is Err);
                    lemma_compact_types_fail(active@, m, k + 1, types.len() as int);
                }
                return Err(e);
            },
            Ok(c) => {
                push_item(&mut js, Json::Text(c));
            },
        }
        k = k + 1;
    }
    Ok(js)
}

/// Where the first types fail, more types fail the same.
proof fn lemma_compact_types_fail(active: ActiveContextModel, types: Seq<IdModel>, i: int, k: int)
    requires
        0 <= i <= k <= types.len(),
        compact_types(active, types, i) is Err,
    ensures
        compact_types(active, types, k) == compact_types(active, types, i),
    decreases k - i,
{
    if i < k {
        lemma_compact_types_fail(active, types, i, k - 1);
    }
}

/// The items of a list, each compacted as a value of `key`.
fn compact_list_items_exec(
    active: &ActiveContext,
    key: &str,
    items: &Vec<Indexed<ExpandedObject>>,
    opts: Options,
) -> (r: Result<Vec<Json>, ErrorCode>)
    ensures
        match r {
            Ok(js) => compact_list_items(active@, key@, objects_model(items@), items.len() as int, opts) == Ok::<
                Seq<JsonView>,
                ErrorCode,
            >(items_view(js@)),
            Err(e) => compact_list_items(active@, key@, objects_model(items@), items.len() as int, opts) == Err::<
                Seq<JsonView>,
                ErrorCode,
            >(e),
        },
    decreases items, 0int, 1int,
{
    let ghost m = objects_model(items@);
    let mut js: Vec<Json> = Vec::new();
    assert(items_view(js@) =~= Seq::empty());
    let mut k: usize = 0;
    while k < items.len()
        invariant
            k <= items.len(),
            m == objects_model(items@),
            compact_list_items(active@, key@, m, k as int, opts) == Ok::<Seq<JsonView>, ErrorCode>(
                items_view(js@),
            ),
        decreases items.len() - k,
    {
        assert(m[k as int] == indexed_object_model(items@[k as int]));
        match compact_object_exec(active, key, &items[k], opts) {
            Err(e) => {
                proof {
                    assert(compact_list_items(active@, key@, m, k + 1, opts) is Err);
                    lemma_compact_list_items_fail(active@, key@, m, k + 1, items.len() as int, opts);
                }
                return Err(e);
            },
            Ok(j) => {
                push_item(&mut js, j);
            },
        }
        k = k + 1;
    }
    Ok(js)
}

/// Where the first items fail, more items fail the same.
proof fn lemma_compact_list_items_fail(
    active: ActiveContextModel,
    key: Seq<char>,
    items: Seq<IndexedObjectModel>,
    i: int,
    k: int,
    opts: Options,
)
    requires
        0 <= i <= k <= items.len(),
        compact_list_items(active, key, items, i, opts) is Err,
    ensures
        compact_list_items(active, key, items, k, opts) == compact_list_items(active, key, items, i, opts),
    decreases k - i,
{
    if i < k {
        lemma_compact_list_items_fail(active, key, items, i, k - 1, opts);
    }
}

/// Whether the scalar `literal`, as a value of `key`, stands for the value `v`.
fn gives_value(active: &ActiveContext, key: &str, v: &Value<IriBuf>) -> (r: bool)
    ensures
        r == (expand_scalar(active@, key@, v.literal@) == ObjectModel::Value(value_model(*v))),
{
    match expand_scalar_exec(active, key, clone_literal(&v.literal)) {
        Object::Value(w) => same_value(&w, v),
        _ => false,
    }
}

/// Whether the text of the identifier of the node `n`, as a value of `key`, stands for `n`.
fn gives_reference(active: &ActiveContext, key: &str, n: &ExpandedNode) -> (r: bool)
    requires
        is_bare(node_model(*n)),
        n.id is Some,
    ensures
        r == (expand_scalar(
            active@,
            key@,
            crate::object::value::LiteralModel::Text(id_text(id_model(n.id->0))),
        ) == ObjectModel::Node(node_model(*n))),
{
    let id = match &n.id {
        Some(id) => id,
        None => {
            return false;
        },
    };
    match expand_scalar_exec(active, key, Literal::Text(id_as_str(id).to_owned())) {
        Object::Node(m) => {
            let same = check_bare(&m) && match &m.id {
                Some(other) => same_id(other, id),
                None => false,
            };
            proof {
                if same {
                    assert(node_model(m).properties =~= node_model(*n).properties);
                    assert(node_model(m) == node_model(*n));
                }
            }
            same
        },
        _ => false,
    }
}

/// An object compacted as a value of `key`.
pub fn compact_object_exec(active: &ActiveContext, key: &str, o: &Indexed<ExpandedObject>, opts: Options) -> (r:
    Result<Json, ErrorCode>)
    ensures
        match r {
            Ok(j) => compact_object(active@, key@, indexed_object_model(*o), opts) == Ok::<JsonView, ErrorCode>(j@),
            Err(e) => compact_object(active@, key@, indexed_object_model(*o), opts) == Err::<JsonView, ErrorCode>(
                e,
            ),
        },
    decreases o, 1int, 0int,
{
    compact_inner_exec(active, key, &o.inner, &o.index, opts)
}

/// An object with the index `index`, compacted as a value of `key`.
pub fn compact_inner_exec(
    active: &ActiveContext,
    key: &str,
    inner: &ExpandedObject,
    index: &Option<String>,
    opts: Options,
) -> (r: Result<Json, ErrorCode>)
    ensures
        match r {
            Ok(j) => compact_inner(active@, key@, object_model(*inner), text_of(*index), opts) == Ok::<JsonView, ErrorCode>(j@),
            Err(e) => compact_inner(active@, key@, object_model(*inner), text_of(*index), opts) == Err::<JsonView, ErrorCode>(
                e,
            ),
        },
    decreases inner, 1int, 0int,
{
    match inner {
        Object::Value(v) => {
            if index.is_none() && gives_value(active, key, v) {
                Ok(literal_to_json(&v.literal))
            } else {
                value_object_exec(active, v, index)
            }
        },
        Object::Node(n) => {
            if index.is_none() && check_bare(n) && n.id.is_some() && gives_reference(active, key, n) {
                match &n.id {
                    Some(id) => Ok(Json::text(id_as_str(id))),
                    None => Ok(Json::Null),
                }
            } else {
                compact_node_exec(active, n, index, opts)
            }
        },
        Object::List(l) => {
            assert(l.items == inner->List_0.items);
            match compact_list_items_exec(active, key, &l.items, opts) {
                Err(e) => Err(e),
                Ok(js) => {
                    let mut entries: Vec<(String, Json)> = Vec::new();
                    assert(entries_view(entries@) =~= Seq::empty());
                    push_entry(&mut entries, keyword_alias_exec(active, "@list").as_str(), Json::Array(js));
                    assert(entries_view(entries@) =~= seq![
                        (keyword_alias(active@, "@list"@), JsonView::Array(items_view(js@))),
                    ]);
                    push_if(&mut entries, keyword_alias_exec(active, "@index").as_str(), optional_text(index));
                    Ok(Json::Object(entries))
                },
            }
        },
    }
}

/// Adds the objects of the property `iri` to the entries of a node.
fn compact_property_exec(
    active: &ActiveContext,
    iri: &str,
    objects: &Vec<Indexed<ExpandedObject>>,
    entries: &mut Vec<(String, Json)>,
    opts: Options,
) -> (r: Result<(), ErrorCode>)
    ensures
        match r {
            Ok(()) => compact_property(
                active@,
                iri@,
                objects_model(objects@),
                objects.len() as int,
                entries_view(old(entries)@),
                opts,
            ) == Ok::<Seq<(Seq<char>, JsonView)>, ErrorCode>(entries_view(final(entries)@)),
            Err(e) => compact_property(
                active@,
                iri@,
                objects_model(objects@),
                objects.len() as int,
                entries_view(old(entries)@),
                opts,
            ) == Err::<Seq<(Seq<char>, JsonView)>, ErrorCode>(e),
        },
    decreases objects, 0int, 2int,
{
    let ghost m = objects_model(objects@);
    let ghost start = entries_view(entries@);
    let mut k: usize = 0;
    while k < objects.len()
        invariant
            k <= objects.len(),
            m == objects_model(objects@),
            start == entries_view(old(entries)@),
            compact_property(active@, iri@, m, k as int, start, opts) == Ok::<
                Seq<(Seq<char>, JsonView)>,
                ErrorCode,
            >(entries_view(entries@)),
        decreases objects.len() - k,
    {
        assert(m[k as int] == indexed_object_model(objects@[k as int]));
        match compact_one(active, iri, &objects[k], entries, opts) {
            Err(e) => {
                proof {
                    assert(compact_property(active@, iri@, m, k + 1, start, opts) is Err);
                    lemma_compact_property_fail(active@, iri@, m, k + 1, objects.len() as int, start, opts);
                }
                return Err(e);
            },
            Ok(()) => {},
        }
        k = k + 1;
    }
    Ok(())
}

/// Adds one object of the property `iri` to the entries of a node.
fn compact_one(
    active: &ActiveContext,
    iri: &str,
    o: &Indexed<ExpandedObject>,
    entries: &mut Vec<(String, Json)>,
    opts: Options,
) -> (r: Result<(), ErrorCode>)
    ensures
        match r {
            Ok(()) => step(active@, iri@, indexed_object_model(*o), entries_view(old(entries)@), opts) == Ok::<
                Seq<(Seq<char>, JsonView)>,
                ErrorCode,
            >(entries_view(final(entries)@)),
            Err(e) => step(active@, iri@, indexed_object_model(*o), entries_view(old(entries)@), opts) == Err::<
                Seq<(Seq<char>, JsonView)>,
                ErrorCode,
            >(e),
        },
    decreases o, 2int, 0int,
{
    proof {
        lemma_entries_view(entries@);
    }
    let listed = match &o.inner {
        Object::List(_) => o.index.is_none(),
        _ => false,
    };
    let list_key = if listed {
        best_term_exec(active, iri, true, false)
    } else {
        None
    };
    match list_key {
        Some(key) => {
            if assoc_find(entries, key.as_str()).is_some() {
                return Err(ErrorCode::CompactionToListOfLists);
            }
            match &o.inner {
                Object::List(l) => {
                    assert(l.items == o.inner->List_0.items);
                    match compact_list_items_exec(active, key.as_str(), &l.items, opts) {
                        Err(e) => Err(e),
                        Ok(js) => {
                            push_entry(entries, key.as_str(), Json::Array(js));
                            Ok(())
                        },
                    }
                },
                _ => Ok(()),
            }
        },
        None => {
            match language_key_exec(active, iri, o) {
                Some(key) => {
                    match &o.inner {
                        Object::Value(v) => match (&v.language, &v.literal) {
                            (Some(l), Literal::Text(s)) => {
                                add_mapped(entries, key, l.as_str(), Json::text(s.as_str()));
                            },
                            _ => {},
                        },
                        _ => {},
                    }
                    return Ok(());
                },
                None => {},
            }
            match index_key_exec(active, iri, o) {
                Some(key) => {
                    let none: Option<String> = None;
                    return match compact_inner_exec(active, key.as_str(), &o.inner, &none, opts) {
                        Err(e) => Err(e),
                        Ok(j) => {
                            match &o.index {
                                Some(i) => {
                                    add_mapped(entries, key, i.as_str(), j);
                                },
                                None => {},
                            }
                            Ok(())
                        },
                    };
                },
                None => {},
            }
            match compact_iri_exec(active, iri, true, false, false) {
                Err(e) => Err(e),
                Ok(key) => match compact_object_exec(active, key.as_str(), o, opts) {
                    Err(e) => Err(e),
                    Ok(j) => {
                        let array = check_as_array(active, key.as_str(), opts);
                        add_value(entries, key, j, array);
                        Ok(())
                    },
                },
            }
        },
    }
}

/// The term under which a value is written in a language map.
fn language_key_exec(active: &ActiveContext, iri: &str, o: &Indexed<ExpandedObject>) -> (r: Option<String>)
    ensures
        text_of(r) == language_key(active@, iri@, indexed_object_model(*o)),
{
    match &o.inner {
        Object::Value(v) => {
            let text = match &v.literal {
                Literal::Text(_) => true,
                _ => false,
            };
            let tagged = match &v.language {
                Some(l) => map_tag_exec(active, l.as_str()).is_some(),
                None => false,
            };
            if !(o.index.is_none() && text && v.ty.is_none() && tagged) {
                return None;
            }
            match best_map_term_exec(active, iri, ContainerKind::Language) {
                Some(term) => {
                    let def = active.get(term.as_str());
                    if v.direction == property_direction(active, &def) {
                        Some(term)
                    } else {
                        None
                    }
                },
                None => None,
            }
        },
        _ => None,
    }
}

/// The term under which an object is written in an index map.
fn index_key_exec(active: &ActiveContext, iri: &str, o: &Indexed<ExpandedObject>) -> (r: Option<String>)
    ensures
        text_of(r) == index_key(active@, iri@, indexed_object_model(*o)),
{
    let tagged = match &o.index {
        Some(i) => map_tag_exec(active, i.as_str()).is_some(),
        None => false,
    };
    if tagged {
        best_map_term_exec(active, iri, ContainerKind::Index)
    } else {
        None
    }
}

/// Adds `item` under `tag` in the map that stands under `key`, or in a new map under `key`.
pub fn add_mapped(entries: &mut Vec<(String, Json)>, key: String, tag: &str, item: Json)
    ensures
        entries_view(final(entries)@) == with_mapped(entries_view(old(entries)@), key@, tag@, item@),
{
    proof {
        lemma_entries_view(entries@);
    }
    let ghost before = entries@;
    let ghost m = entries_view(entries@);
    let place = match assoc_find(entries, key.as_str()) {
        Some(i) => {
            assert(m[i as int] == (entries@[i as int].0@, entries@[i as int].1@));
            match &entries[i].1 {
                Json::Object(_) => Some(i),
                _ => None,
            }
        },
        None => None,
    };
    match place {
        Some(i) => {
            let old_entry = entries.remove(i);
            assert(m[i as int] == (old_entry.0@, old_entry.1@));
            let merged = match old_entry.1 {
                Json::Object(map) => {
                    let mut map = map;
                    add_value(&mut map, tag.to_owned(), item, false);
                    Json::Object(map)
                },
                other => other,
            };
            entries.insert(i, (key, merged));
            assert(entries_view(entries@) =~= m.update(i as int, (key@, merged@))) by {
                assert forall|j: int| 0 <= j < entries@.len() implies #[trigger] entries_view(entries@)[j]
                    == m.update(i as int, (key@, merged@))[j] by {
                    if j != i {
                        assert(entries@[j] == before[j]);
                        assert(m[j] == (before[j].0@, before[j].1@));
                    }
                }
            }
        },
        None => {
            let mut map: Vec<(String, Json)> = Vec::new();
            assert(entries_view(map@) =~= Seq::empty());
            push_entry(&mut map, tag, item);
            assert(entries_view(map@) =~= seq![(tag@, item@)]);
            push_entry(entries, key.as_str(), Json::Object(map));
        },
    }
}

/// What the object `o` of the property `iri` adds to the entries `before`.
pub open spec fn step(
    active: ActiveContextModel,
    iri: Seq<char>,
    o: IndexedObjectModel,
    before: Seq<(Seq<char>, JsonView)>,
    opts: Options,
) -> Result<Seq<(Seq<char>, JsonView)>, ErrorCode> {
    let list_key = if o.inner is List && o.index is None {
        best_term(active.terms, iri, true, false, active.terms.len() as int)
    } else {
        None
    };
    if list_key is Some {
        if assoc_position(before, list_key->0) is Some {
            Err(ErrorCode::CompactionToListOfLists)
        } else {
            match compact_list_items(active, list_key->0, o.inner->List_0, o.inner->List_0.len() as int, opts) {
                Err(e) => Err(e),
                Ok(js) => Ok(before.push((list_key->0, JsonView::Array(js)))),
            }
        }
    } else {
        match mapped_step(active, iri, o, before, opts) {
            Some(r) => r,
            None => match compact_iri(active, iri, true, false, false) {
                Err(e) => Err(e),
                Ok(key) => match compact_object(active, key, o, opts) {
                    Err(e) => Err(e),
                    Ok(j) => Ok(with_value(before, key, j, as_array(active, key, opts))),
                },
            },
        }
    }
}

/// Where the first objects fail, more objects fail the same.
proof fn lemma_compact_property_fail(
    active: ActiveContextModel,
    iri: Seq<char>,
    objects: Seq<IndexedObjectModel>,
    i: int,
    k: int,
    entries: Seq<(Seq<char>, JsonView)>,
    opts: Options,
)
    requires
        0 <= i <= k <= objects.len(),
        compact_property(active, iri, objects, i, entries, opts) is Err,
    ensures
        compact_property(active, iri, objects, k, entries, opts) == compact_property(
            active,
            iri,
            objects,
            i,
            entries,
            opts,
        ),
    decreases k - i,
{
    if i < k {
        lemma_compact_property_fail(active, iri, objects, i, k - 1, entries, opts);
    }
}

/// Adds the properties of a node to its entries.
fn compact_properties_exec(
    active: &ActiveContext,
    properties: &Vec<PropertyEntry<IriBuf, BlankIdBuf>>,
    entries: &mut Vec<(String, Json)>,
    opts: Options,
) -> (r: Result<(), ErrorCode>)
    ensures
        match r {
            Ok(()) => compact_properties(
                active@,
                properties_model(properties@),
                properties.len() as int,
                entries_view(old(entries)@),
                opts,
            ) == Ok::<Seq<(Seq<char>, JsonView)>, ErrorCode>(entries_view(final(entries)@)),
            Err(e) => compact_properties(
                active@,
                properties_model(properties@),
                properties.len() as int,
                entries_view(old(entries)@),
                opts,
            ) == Err::<Seq<(Seq<char>, JsonView)>, ErrorCode>(e),
        },
    decreases properties, 0int, 3int,
{
    let ghost m = properties_model(properties@);
    let ghost start = entries_view(entries@);
    let mut k: usize = 0;
    while k < properties.len()
        invariant
            k <= properties.len(),
            m == properties_model(properties@),
            start == entries_view(old(entries)@),
            compact_properties(active@, m, k as int, start, opts) == Ok::<
                Seq<(Seq<char>, JsonView)>,
                ErrorCode,
            >(entries_view(entries@)),
        decreases properties.len() - k,
    {
        assert(m[k as int] == (id_model(properties@[k as int].property), objects_model(properties@[k as int].objects@)));
        match compact_property_exec(
            active,
            id_as_str(&properties[k].property),
            &properties[k].objects,
            entries,
            opts,
        ) {
            Err(e) => {
                proof {
                    assert(compact_properties(active@, m, k + 1, start, opts) is Err);
                    lemma_compact_properties_fail(active@, m, k + 1, properties.len() as int, start, opts);
                }
                return Err(e);
            },
            Ok(()) => {},
        }
        k = k + 1;
    }
    Ok(())
}

/// Where the first properties fail, more properties fail the same.
proof fn lemma_compact_properties_fail(
    active: ActiveContextModel,
    properties: Seq<(IdModel, Seq<IndexedObjectModel>)>,
    i: int,
    k: int,
    entries: Seq<(Seq<char>, JsonView)>,
    opts: Options,
)
    requires
        0 <= i <= k <= properties.len(),
        compact_properties(active, properties, i, entries, opts) is Err,
    ensures
        compact_properties(active, properties, k, entries, opts) == compact_properties(
            active,
            properties,
            i,
            entries,
            opts,
        ),
    decreases k - i,
{
    if i < k {
        lemma_compact_properties_fail(active, properties, i, k - 1, entries, opts);
    }
}

/// The nodes `nodes`, each compacted.
fn compact_nodes_exec(active: &ActiveContext, nodes: &Vec<Indexed<ExpandedNode>>, opts: Options) -> (r: Result<
    Vec<Json>,
    ErrorCode,
>)
    ensures
        match r {
            Ok(js) => compact_nodes(active@, nodes_model(nodes@), nodes.len() as int, opts) == Ok::<
                Seq<JsonView>,
                ErrorCode,
            >(items_view(js@)),
            Err(e) => compact_nodes(active@, nodes_model(nodes@), nodes.len() as int, opts) == Err::<
                Seq<JsonView>,
                ErrorCode,
            >(e),
        },
    decreases nodes, 0int, 1int,
{
    let ghost m = nodes_model(nodes@);
    let mut js: Vec<Json> = Vec::new();
    assert(items_view(js@) =~= Seq::empty());
    let mut k: usize = 0;
    while k < nodes.len()
        invariant
            k <= nodes.len(),
            m == nodes_model(nodes@),
            compact_nodes(active@, m, k as int, opts) == Ok::<Seq<JsonView>, ErrorCode>(items_view(js@)),
        decreases nodes.len() - k,
    {
        assert(m[k as int] == indexed_node_model(nodes@[k as int]));
        match compact_node_exec(active, &nodes[k].inner, &nodes[k].index, opts) {
            Err(e) => {
                proof {
                    assert(compact_nodes(active@, m, k + 1, opts) is Err);
                    lemma_compact_nodes_fail(active@, m, k + 1, nodes.len() as int, opts);
                }
                return Err(e);
            },
            Ok(j) => {
                push_item(&mut js, j);
            },
        }
        k = k + 1;
    }
    Ok(js)
}

/// Where the first nodes fail, more nodes fail the same.
proof fn lemma_compact_nodes_fail(
    active: ActiveContextModel,
    nodes: Seq<IndexedNodeModel>,
    i: int,
    k: int,
    opts: Options,
)
    requires
        0 <= i <= k <= nodes.len(),
        compact_nodes(active, nodes, i, opts) is Err,
    ensures
        compact_nodes(active, nodes, k, opts) == compact_nodes(active, nodes, i, opts),
    decreases k - i,
{
    if i < k {
        lemma_compact_nodes_fail(active, nodes, i, k - 1, opts);
    }
}

/// The objects `objects`, each compacted as it stands free.
pub fn compact_objects_exec(active: &ActiveContext, objects: &Vec<Indexed<ExpandedObject>>, opts: Options) -> (r:
    Result<Vec<Json>, ErrorCode>)
    ensures
        match r {
            Ok(js) => compact_objects(active@, objects_model(objects@), objects.len() as int, opts) == Ok::<
                Seq<JsonView>,
                ErrorCode,
            >(items_view(js@)),
            Err(e) => compact_objects(active@, objects_model(objects@), objects.len() as int, opts) == Err::<
                Seq<JsonView>,
                ErrorCode,
            >(e),
        },
    decreases objects, 0int, 2int,
{
    let ghost m = objects_model(objects@);
    let mut js: Vec<Json> = Vec::new();
    assert(items_view(js@) =~= Seq::empty());
    let mut k: usize = 0;
    while k < objects.len()
        invariant
            k <= objects.len(),
            m == objects_model(objects@),
            compact_objects(active@, m, k as int, opts) == Ok::<Seq<JsonView>, ErrorCode>(items_view(js@)),
        decreases objects.len() - k,
    {
        assert(m[k as int] == indexed_object_model(objects@[k as int]));
        match compact_object_exec(active, "@graph", &objects[k], opts) {
            Err(e) => {
                proof {
                    assert(compact_objects(active@, m, k + 1, opts) is Err);
                    lemma_compact_objects_fail(active@, m, k + 1, objects.len() as int, opts);
                }
                return Err(e);
            },
            Ok(j) => {
                push_item(&mut js, j);
            },
        }
        k = k + 1;
    }
    Ok(js)
}

/// Where the first objects fail, more objects fail the same.
proof fn lemma_compact_objects_fail(
    active: ActiveContextModel,
    objects: Seq<IndexedObjectModel>,
    i: int,
    k: int,
    opts: Options,
)
    requires
        0 <= i <= k <= objects.len(),
        compact_objects(active, objects, i, opts) is Err,
    ensures
        compact_objects(active, objects, k, opts) == compact_objects(active, objects, i, opts),
    decreases k - i,
{
    if i < k {
        lemma_compact_objects_fail(active, objects, i, k - 1, opts);
    }
}

/// Adds the reverse properties of a node to its entries, or to those of its `@reverse` object.
fn compact_reverse_exec(
    active: &ActiveContext,
    properties: &Vec<ReversePropertyEntry<IriBuf, BlankIdBuf>>,
    entries: &mut Vec<(String, Json)>,
    inside: &mut Vec<(String, Json)>,
    opts: Options,
) -> (r: Result<(), ErrorCode>)
    ensures
        match r {
            Ok(()) => compact_reverse(
                active@,
                reverse_properties_model(properties@),
                properties.len() as int,
                entries_view(old(entries)@),
                entries_view(old(inside)@),
                opts,
            ) == Ok::<(Seq<(Seq<char>, JsonView)>, Seq<(Seq<char>, JsonView)>), ErrorCode>(
                (entries_view(final(entries)@), entries_view(final(inside)@)),
            ),
            Err(e) => compact_reverse(
                active@,
                reverse_properties_model(properties@),
                properties.len() as int,
                entries_view(old(entries)@),
                entries_view(old(inside)@),
                opts,
            ) == Err::<(Seq<(Seq<char>, JsonView)>, Seq<(Seq<char>, JsonView)>), ErrorCode>(e),
        },
    decreases properties, 0int, 3int,
{
    let ghost m = reverse_properties_model(properties@);
    let ghost start = entries_view(entries@);
    let ghost start_inside = entries_view(inside@);
    let mut k: usize = 0;
    while k < properties.len()
        invariant
            k <= properties.len(),
            m == reverse_properties_model(properties@),
            start == entries_view(old(entries)@),
            start_inside == entries_view(old(inside)@),
            compact_reverse(active@, m, k as int, start, start_inside, opts) == Ok::<
                (Seq<(Seq<char>, JsonView)>, Seq<(Seq<char>, JsonView)>),
                ErrorCode,
            >((entries_view(entries@), entries_view(inside@))),
        decreases properties.len() - k,
    {
        assert(m[k as int] == (id_model(properties@[k as int].property), nodes_model(properties@[k as int].nodes@)));
        let iri = id_as_str(&properties[k].property);
        let js = match compact_nodes_exec(active, &properties[k].nodes, opts) {
            Err(e) => {
                proof {
                    assert(compact_reverse(active@, m, k + 1, start, start_inside, opts) is Err);
                    lemma_compact_reverse_fail(active@, m, k + 1, properties.len() as int, start, start_inside, opts);
                }
                return Err(e);
            },
            Ok(js) => js,
        };
        match best_term_exec(active, iri, false, true) {
            Some(t) => {
                push_entry(entries, t.as_str(), Json::Array(js));
            },
            None => match compact_iri_exec(active, iri, true, false, false) {
                Err(e) => {
                    proof {
                        assert(compact_reverse(active@, m, k + 1, start, start_inside, opts) is Err);
                        lemma_compact_reverse_fail(
                            active@,
                            m,
                            k + 1,
                            properties.len() as int,
                            start,
                            start_inside,
                            opts,
                        );
                    }
                    return Err(e);
                },
                Ok(key) => {
                    push_entry(inside, key.as_str(), Json::Array(js));
                },
            },
        }
        k = k + 1;
    }
    Ok(())
}

/// Where the first reverse properties fail, more fail the same.
proof fn lemma_compact_reverse_fail(
    active: ActiveContextModel,
    properties: Seq<(IdModel, Seq<IndexedNodeModel>)>,
    i: int,
    k: int,
    entries: Seq<(Seq<char>, JsonView)>,
    inside: Seq<(Seq<char>, JsonView)>,
    opts: Options,
)
    requires
        0 <= i <= k <= properties.len(),
        compact_reverse(active, properties, i, entries, inside, opts) is Err,
    ensures
        compact_reverse(active, properties, k, entries, inside, opts) == compact_reverse(
            active,
            properties,
            i,
            entries,
            inside,
            opts,
        ),
    decreases k - i,
{
    if i < k {
        lemma_compact_reverse_fail(active, properties, i, k - 1, entries, inside, opts);
    }
}

/// A node compacted.
pub fn compact_node_exec(active: &ActiveContext, n: &ExpandedNode, index: &Option<String>, opts: Options) -> (r:
    Result<Json, ErrorCode>)
    ensures
        match r {
            Ok(j) => compact_node(active@, node_model(*n), text_of(*index), opts) == Ok::<JsonView, ErrorCode>(j@),
            Err(e) => compact_node(active@, node_model(*n), text_of(*index), opts) == Err::<JsonView, ErrorCode>(e),
        },
    decreases n, 0int, 0int,
{
    let id = match &n.id {
        Some(id) => match compact_iri_exec(active, id_as_str(id), false, false, false) {
            Ok(c) => Some(Json::Text(c)),
            Err(e) => {
                return Err(e);
            },
        },
        None => None,
    };
    let types = match &n.types {
        Some(ts) => match compact_types_exec(active, ts) {
            Ok(js) => Some(compact_array(js, opts)),
            Err(e) => {
                return Err(e);
            },
        },
        None => None,
    };
    let mut entries: Vec<(String, Json)> = Vec::new();
    assert(entries_view(entries@) =~= Seq::empty());
    push_if(&mut entries, keyword_alias_exec(active, "@id").as_str(), id);
    push_if(&mut entries, keyword_alias_exec(active, "@type").as_str(), types);
    push_if(&mut entries, keyword_alias_exec(active, "@index").as_str(), optional_text(index));
    match compact_properties_exec(active, &n.properties.entries, &mut entries, opts) {
        Err(e) => {
            return Err(e);
        },
        Ok(()) => {},
    }
    let mut inside: Vec<(String, Json)> = Vec::new();
    assert(entries_view(inside@) =~= Seq::empty());
    match &n.reverse_properties {
        Some(r) => match compact_reverse_exec(active, &r.entries, &mut entries, &mut inside, opts) {
            Err(e) => {
                return Err(e);
            },
            Ok(()) => {},
        },
        None => {},
    }
    if inside.len() > 0 {
        push_entry(&mut entries, keyword_alias_exec(active, "@reverse").as_str(), Json::Object(inside));
    }
    let included = match &n.included {
        Some(ns) => match compact_nodes_exec(active, ns, opts) {
            Ok(js) => Some(Json::Array(js)),
            Err(e) => {
                return Err(e);
            },
        },
        None => None,
    };
    let graph = match &n.graph {
        Some(g) => match compact_objects_exec(active, g, opts) {
            Ok(js) => Some(Json::Array(js)),
            Err(e) => {
                return Err(e);
            },
        },
        None => None,
    };
    push_if(&mut entries, keyword_alias_exec(active, "@included").as_str(), included);
    push_if(&mut entries, keyword_alias_exec(active, "@graph").as_str(), graph);
    Ok(Json::Object(entries))
}

/// The objects of a document compacted.
pub fn compact_document_exec(active: &ActiveContext, objects: &Vec<Indexed<ExpandedObject>>, opts: Options) -> (r:
    Result<Json, ErrorCode>)
    ensures
        match r {
            Ok(j) => compact_document(active@, objects_model(objects@), opts) == Ok::<JsonView, ErrorCode>(j@),
            Err(e) => compact_document(active@, objects_model(objects@), opts) == Err::<JsonView, ErrorCode>(e),
        },
{
    match compact_objects_exec(active, objects, opts) {
        Err(e) => Err(e),
        Ok(js) => Ok(compact_array(js, opts)),
    }
}

/// Makes a document of what has been compacted.
pub fn wrap(active: &ActiveContext, compacted: Json, context: Json) -> (r: Json)
    ensures
        r@ == wrapped(active@, compacted@, context@),
{
    let mut entries: Vec<(String, Json)> = match compacted {
        Json::Array(items) => {
            let mut entries: Vec<(String, Json)> = Vec::new();
            assert(entries_view(entries@) =~= Seq::empty());
            if items.len() > 0 {
                push_entry(&mut entries, keyword_alias_exec(active, "@graph").as_str(), Json::Array(items));
                assert(entries_view(entries@) =~= seq![
                    (keyword_alias(active@, "@graph"@), JsonView::Array(items_view(items@))),
                ]);
            }
            entries
        },
        Json::Object(entries) => entries,
        other => {
            let mut entries: Vec<(String, Json)> = Vec::new();
            assert(entries_view(entries@) =~= Seq::empty());
            let mut items: Vec<Json> = Vec::new();
            assert(items_view(items@) =~= Seq::empty());
            let ghost o = other@;
            push_item(&mut items, other);
            assert(items_view(items@) =~= seq![o]);
            push_entry(&mut entries, keyword_alias_exec(active, "@graph").as_str(), Json::Array(items));
            assert(entries_view(entries@) =~= seq![(keyword_alias(active@, "@graph"@), JsonView::Array(seq![o]))]);
            entries
        },
    };
    if !context.is_null() && !context.is_empty_array_or_object() {
        push_entry(&mut entries, "@context", context);
    }
    Json::Object(entries)
}

} // verus!
