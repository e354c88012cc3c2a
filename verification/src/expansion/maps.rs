//! Maps of languages, indexes, identifiers and types: what stands under their keys.

use vstd::prelude::*;
use vstd::string::*;

use crate::context::{ActiveContext, TermDefinition};
use crate::error::ErrorCode;
use crate::expansion::model::{
    graphs_of,
    holds_graphs,
    language_map,
    language_texts,
    language_values,
    map_kind,
    map_tag,
    reference_of,
    tag_object,
    tagged,
    with_tag,
    MapKind,
};
use crate::expansion::nodes::{add_graph, add_types, set_id};
use crate::expansion::values::{new_node, reference, ExpandedObject};
use crate::json::{entries_view, items_view, Json};
use crate::object::indexed::Indexed;
use crate::object::model::{ids_model, indexed_object_model, objects_model, IndexedObjectModel, NodeId};
use crate::syntax::context::ContainerKind;
use crate::object::node::Object;
use crate::object::value::{text_of, Direction, Literal, Value};
use crate::text::text_eq;

verus! {

/// What strings hold.
pub open spec fn strings_view(ss: Seq<String>) -> Seq<Seq<char>> {
    Seq::new(ss.len(), |i: int| ss[i]@)
}

/// The tag that a key of a language map or of an index map stands for.
pub fn map_tag_exec(active: &ActiveContext, key: &str) -> (r: Option<String>)
    ensures
        text_of(r) == map_tag(active@, key@),
{
    let none = match active.expand_iri(key, false, true) {
        Some(e) => text_eq(e.as_str(), "@none"),
        None => false,
    };
    if none {
        None
    } else {
        Some(key.to_owned())
    }
}

/// The strings that stand under one language of a language map.
pub fn language_values_exec(v: &Json) -> (r: Option<Vec<String>>)
    ensures
        match r {
            Some(ts) => language_values(v@) == Some(strings_view(ts@)),
            None => language_values(v@) is None,
        },
{
    let mut texts: Vec<String> = Vec::new();
    assert(strings_view(texts@) =~= Seq::empty());
    match v {
        Json::Null => Some(texts),
        Json::Text(s) => {
            texts.push(s.clone());
            assert(strings_view(texts@) =~= seq![s@]);
            Some(texts)
        },
        Json::Array(items) => {
            let ghost views = items_view(items@);
            let mut k: usize = 0;
            while k < items.len()
                invariant
                    k <= items.len(),
                    v is Array,
                    *items == v->Array_0,
                    views == items_view(items@),
                    language_texts(views, k as int, strings_view(texts@)) == language_texts(views, 0, Seq::empty()),
                decreases items.len() - k,
            {
                assert(views[k as int] == items@[k as int]@);
                match &items[k] {
                    Json::Null => {},
                    Json::Text(s) => {
                        let ghost before = texts@;
                        texts.push(s.clone());
                        assert(strings_view(texts@) =~= strings_view(before).push(s@));
                    },
                    _ => {
                        assert(language_texts(views, k as int, strings_view(texts@)) is None);
                        assert(v@ == crate::json::JsonView::Array(views));
                        return None;
                    },
                }
                k = k + 1;
            }
            Some(texts)
        },
        _ => None,
    }
}

/// Adds the strings to `out` as values with the given language and direction.
pub fn push_tagged(
    out: &mut Vec<Indexed<ExpandedObject>>,
    texts: Vec<String>,
    language: &Option<String>,
    direction: Option<Direction>,
)
    ensures
        objects_model(final(out)@) == objects_model(old(out)@) + tagged(
            strings_view(texts@),
            text_of(*language),
            direction,
        ),
{
    let ghost all = tagged(strings_view(texts@), text_of(*language), direction);
    let ghost start = objects_model(out@);
    let mut k: usize = 0;
    while k < texts.len()
        invariant
            k <= texts.len(),
            all == tagged(strings_view(texts@), text_of(*language), direction),
            objects_model(out@) == start + all.subrange(0, k as int),
        decreases texts.len() - k,
    {
        let ghost before = out@;
        let value = Value {
            literal: Literal::Text(texts[k].clone()),
            ty: None,
            language: match language {
                Some(l) => Some(l.clone()),
                None => None,
            },
            direction,
        };
        let o = Indexed { inner: Object::Value(value), index: None };
        assert(indexed_object_model(o) == all[k as int]);
        out.push(o);
        assert(objects_model(out@) =~= objects_model(before).push(all[k as int]));
        assert(start + all.subrange(0, k as int + 1) =~= (start + all.subrange(0, k as int)).push(all[k as int]));
        k = k + 1;
    }
    assert(all.subrange(0, texts.len() as int) =~= all);
}

/// The objects of a language map.
pub fn language_map_exec(active: &ActiveContext, entries: &Vec<(String, Json)>, direction: Option<Direction>) -> (r:
    Result<Vec<Indexed<ExpandedObject>>, ErrorCode>)
    ensures
        match r {
            Ok(os) => language_map(active@, entries_view(entries@), direction, 0, Seq::empty()) == Ok::<
                Seq<IndexedObjectModel>,
                ErrorCode,
            >(objects_model(os@)),
            Err(e) => language_map(active@, entries_view(entries@), direction, 0, Seq::empty()) == Err::<
                Seq<IndexedObjectModel>,
                ErrorCode,
            >(e),
        },
{
    let ghost views = entries_view(entries@);
    let mut out: Vec<Indexed<ExpandedObject>> = Vec::new();
    assert(objects_model(out@) =~= Seq::empty());
    let mut k: usize = 0;
    while k < entries.len()
        invariant
            k <= entries.len(),
            views == entries_view(entries@),
            language_map(active@, views, direction, k as int, objects_model(out@)) == language_map(
                active@,
                views,
                direction,
                0,
                Seq::empty(),
            ),
        decreases entries.len() - k,
    {
        assert(views[k as int] == (entries@[k as int].0@, entries@[k as int].1@));
        match language_values_exec(&entries[k].1) {
            None => {
                return Err(ErrorCode::InvalidLanguageMapValue);
            },
            Some(texts) => {
                let tag = map_tag_exec(active, entries[k].0.as_str());
                push_tagged(&mut out, texts, &tag, direction);
            },
        }
        k = k + 1;
    }
    Ok(out)
}

/// The kind of map that the values of a term are.
pub fn map_kind_exec(def: &Option<&TermDefinition>) -> (r: Option<MapKind>)
    ensures
        r == map_kind(
            match *def {
                Some(d) => Some(d@),
                None => None,
            },
        ),
{
    match def {
        Some(d) => if d.has_container(ContainerKind::Index) {
            Some(MapKind::Index)
        } else if d.has_container(ContainerKind::Id) {
            Some(MapKind::Id)
        } else if d.has_container(ContainerKind::Type) {
            Some(MapKind::Type)
        } else {
            None
        },
        None => None,
    }
}

/// An object that stands under `key` in a map, with what the key gives it.
pub fn tag_object_exec(within: &ActiveContext, o: Indexed<ExpandedObject>, kind: MapKind, key: &str) -> (r: Indexed<
    ExpandedObject,
>)
    ensures
        indexed_object_model(r) == tag_object(within@, indexed_object_model(o), kind, key@),
{
    if map_tag_exec(within, key).is_none() {
        return o;
    }
    match kind {
        MapKind::Index => match o.index {
            Some(own) => Indexed { inner: o.inner, index: Some(own) },
            None => Indexed { inner: o.inner, index: Some(key.to_owned()) },
        },
        MapKind::Id => match o.inner {
            Object::Node(n) => {
                if n.id.is_none() {
                    let mut n = n;
                    set_id(&mut n, reference(within, key, false));
                    Indexed { inner: Object::Node(n), index: o.index }
                } else {
                    Indexed { inner: Object::Node(n), index: o.index }
                }
            },
            other => Indexed { inner: other, index: o.index },
        },
        MapKind::Type => match o.inner {
            Object::Node(n) => {
                let mut n = n;
                let mut types: Vec<NodeId> = Vec::new();
                types.push(reference(within, key, true));
                assert(ids_model(types@) =~= seq![reference_of(within@, key@, true)]);
                add_types(&mut n, types);
                Indexed { inner: Object::Node(n), index: o.index }
            },
            other => Indexed { inner: other, index: o.index },
        },
    }
}

/// The objects that stand under `key` in a map, each with what the key gives it.
pub fn with_tag_exec(within: &ActiveContext, objects: Vec<Indexed<ExpandedObject>>, kind: MapKind, key: &str) -> (r:
    Vec<Indexed<ExpandedObject>>)
    ensures
        objects_model(r@) == with_tag(within@, objects_model(objects@), kind, key@),
{
    let ghost m = objects_model(objects@);
    let ghost n = objects.len() as int;
    let ghost all = with_tag(within@, m, kind, key@);
    let mut rest = objects;
    let mut out: Vec<Indexed<ExpandedObject>> = Vec::new();
    assert(objects_model(out@) =~= all.subrange(0, 0));
    let mut k: usize = 0;
    while rest.len() > 0
        invariant
            k + rest.len() == n,
            m.len() == n,
            n == objects.len(),
            all == with_tag(within@, m, kind, key@),
            forall|i: int| 0 <= i < rest.len() ==> indexed_object_model(#[trigger] rest@[i]) == m[k + i],
            objects_model(out@) == all.subrange(0, k as int),
        decreases rest.len(),
    {
        assert(indexed_object_model(rest@[0]) == m[k as int]);
        let ghost before_rest = rest@;
        let o = rest.remove(0);
        assert forall|i: int| 0 <= i < rest.len() implies indexed_object_model(#[trigger] rest@[i]) == m[k + 1
            + i] by {
            assert(rest@[i] == before_rest[i + 1]);
        }
        let ghost before = out@;
        let given = tag_object_exec(within, o, kind, key);
        assert(indexed_object_model(given) == all[k as int]);
        out.push(given);
        assert(objects_model(out@) =~= objects_model(before).push(all[k as int]));
        assert(all.subrange(0, k as int + 1) =~= all.subrange(0, k as int).push(all[k as int]));
        k = k + 1;
    }
    assert(all.subrange(0, n) =~= all);
    out
}

/// Whether each value of a term is the one object of a graph of its own.
pub fn check_holds_graphs(def: &Option<&TermDefinition>) -> (r: bool)
    ensures
        r == holds_graphs(
            match *def {
                Some(d) => Some(d@),
                None => None,
            },
        ),
{
    match def {
        Some(d) => d.has_container(ContainerKind::Graph) && !d.has_container(ContainerKind::Id) && !d.has_container(
            ContainerKind::Index,
        ),
        None => false,
    }
}

/// The objects, each as the one object of a graph of its own.
pub fn graphs_of_exec(objects: Vec<Indexed<ExpandedObject>>) -> (r: Vec<Indexed<ExpandedObject>>)
    ensures
        objects_model(r@) == graphs_of(objects_model(objects@)),
{
    let ghost m = objects_model(objects@);
    let ghost n = objects.len() as int;
    let ghost all = graphs_of(m);
    let mut rest = objects;
    let mut out: Vec<Indexed<ExpandedObject>> = Vec::new();
    assert(objects_model(out@) =~= all.subrange(0, 0));
    let mut k: usize = 0;
    while rest.len() > 0
        invariant
            k + rest.len() == n,
            m.len() == n,
            n == objects.len(),
            all == graphs_of(m),
            forall|i: int| 0 <= i < rest.len() ==> indexed_object_model(#[trigger] rest@[i]) == m[k + i],
            objects_model(out@) == all.subrange(0, k as int),
        decreases rest.len(),
    {
        assert(indexed_object_model(rest@[0]) == m[k as int]);
        let ghost before_rest = rest@;
        let o = rest.remove(0);
        assert forall|i: int| 0 <= i < rest.len() implies indexed_object_model(#[trigger] rest@[i]) == m[k + 1
            + i] by {
            assert(rest@[i] == before_rest[i + 1]);
        }
        let ghost before = out@;
        let mut node = new_node();
        let mut graph: Vec<Indexed<ExpandedObject>> = Vec::new();
        graph.push(o);
        assert(objects_model(graph@) =~= seq![m[k as int]]);
        add_graph(&mut node, graph);
        let given = Indexed { inner: Object::Node(node), index: None };
        assert(indexed_object_model(given) == all[k as int]);
        out.push(given);
        assert(objects_model(out@) =~= objects_model(before).push(all[k as int]));
        assert(all.subrange(0, k as int + 1) =~= all.subrange(0, k as int).push(all[k as int]));
        k = k + 1;
    }
    assert(all.subrange(0, n) =~= all);
    out
}

} // verus!
