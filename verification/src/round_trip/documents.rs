//! Documents written in the context without terms, and read again.

use vstd::prelude::*;

use crate::assoc::lemma_assoc_position_none;
use crate::compaction::model::{compact_document, compact_objects, compacted_array, keyword_alias, wrapped, Options};
use crate::context::ActiveContextModel;
use crate::document::compacted;
use crate::error::ErrorCode;
use crate::expansion::model::{
    context_within,
    embedded,
    expand_element,
    expand_entries,
    expand_items,
    expand_object,
    expanded,
    unwrapped,
    NodeState,
};
use crate::iri::{BlankIdBuf, IriBuf};
use crate::json::JsonView;
use crate::object::indexed::Indexed;
use crate::object::mapped_eq::{identity, objects_match};
use crate::object::model::{empty_node, objects_model, IndexedObjectModel, NodeModel, ObjectModel};
use crate::object::node::Object;
use crate::object::same::lemma_same_objects;
use crate::processing::contexts::processed;
use crate::processing::laws::lemma_null_context;
use crate::processing::model::{propagates, Env, MAX_REMOTE_CONTEXTS};
use crate::round_trip::form::sound_document;
use crate::round_trip::names::lemma_keyword_texts;
use crate::round_trip::objects::lemma_free;
use crate::round_trip::parts::{lemma_node_entries, node_keys, start};
use crate::round_trip::steps::{expand_one, lemma_entries_from, lemma_entry_of_none};

verus! {

/// The objects of a sound document, compacted with the context without
/// terms, made a document and expanded again, are the objects that were there.
pub proof fn lemma_round_trip(
    objects: Seq<IndexedObjectModel>,
    base: Option<Seq<char>>,
    found: spec_fn(Seq<char>) -> Option<(Seq<char>, JsonView)>,
    opts: Options,
)
    requires
        sound_document(objects),
    ensures
        compact_document(ActiveContextModel::empty(base), objects, opts) is Ok,
        expanded(
            ActiveContextModel::empty(base),
            wrapped(
                ActiveContextModel::empty(base),
                compact_document(ActiveContextModel::empty(base), objects, opts)->Ok_0,
                JsonView::Null,
            ),
            base,
            found,
        ) == Ok::<_, ErrorCode>(objects),
{
    let active = ActiveContextModel::empty(base);
    let env = Env { base, found, remote: Seq::empty() };
    let n = objects.len() as int;
    lemma_keyword_texts();
    lemma_free(base, objects, n, None, opts, env);
    lemma_free(base, objects, n, Some("@graph"@), opts, env);
    let js = compact_objects(active, objects, n, opts)->Ok_0;
    assert(objects.subrange(0, n) =~= objects);
    let j = compacted_array(js, opts);
    assert(compact_document(active, objects, opts) == Ok::<_, ErrorCode>(j));
    let w = wrapped(active, j, JsonView::Null);
    assert(keyword_alias(active, "@graph"@) == "@graph"@);
    let none: Seq<(Seq<char>, JsonView)> = Seq::empty();
    if n == 1 && opts.compact_arrays {
        assert(j == js[0]);
        assert(js[0] is Object);
        assert(w == js[0]);
        let no_items: Seq<JsonView> = Seq::empty();
        assert(expand_items(active, None, js, 0, env) == Ok::<_, ErrorCode>(Seq::<IndexedObjectModel>::empty()));
        assert(expand_element(active, None, js[0], env) is Ok);
        assert(Seq::<IndexedObjectModel>::empty() + expand_element(active, None, js[0], env)->Ok_0 =~= expand_element(
            active,
            None,
            js[0],
            env,
        )->Ok_0);
        assert(expand_element(active, None, w, env) == Ok::<_, ErrorCode>(objects));
    } else if n == 0 {
        assert(j == JsonView::Array(js));
        assert(w == JsonView::Object(none));
        assert(node_keys(none));
        assert(expand_entries(active, none, 0, start(), env) == Ok::<_, ErrorCode>(start()));
        lemma_assoc_position_none(none, "@context"@);
        assert(context_within(active, w, env) == Ok::<_, ErrorCode>(active));
        lemma_entry_of_none(active, none, "@value"@, 0);
        lemma_entry_of_none(active, none, "@list"@, 0);
        lemma_entry_of_none(active, none, "@set"@, 0);
        assert(expand_object(active, None, none, env) == Ok::<_, ErrorCode>(Seq::<IndexedObjectModel>::empty()));
        assert(objects =~= Seq::<IndexedObjectModel>::empty());
        assert(expand_element(active, None, w, env) == Ok::<_, ErrorCode>(objects));
    } else {
        assert(j == JsonView::Array(js));
        let x = ("@graph"@, JsonView::Array(js));
        let es = seq![x];
        assert(w == JsonView::Object(es));
        assert(es =~= none.push(x));
        assert(expand_entries(active, none, 0, start(), env) == Ok::<_, ErrorCode>(start()));
        lemma_entries_from(active, none, x, 0, start(), env);
        let st = NodeState { node: NodeModel { graph: Some(objects), ..empty_node() }, index: None };
        assert(expand_element(active, Some("@graph"@), JsonView::Array(js), env) == Ok::<_, ErrorCode>(objects));
        assert(expand_one(active, "@graph"@, JsonView::Array(js), start(), env) == Ok::<_, ErrorCode>(st));
        assert(node_keys(es));
        lemma_node_entries(base, None, es, st, env);
        let whole = seq![IndexedObjectModel { inner: ObjectModel::Node(st.node), index: st.index }];
        assert(expand_element(active, None, w, env) == Ok::<_, ErrorCode>(whole));
        assert(unwrapped(whole) == objects);
    }
}

/// Expansion gives what it gave before: where the objects of a document
/// are those of a sound document, the document compacted with the `null`
/// context expands to the same objects.
pub proof fn lemma_expansion_is_kept(
    doc: JsonView,
    base: Option<Seq<char>>,
    found: spec_fn(Seq<char>) -> Option<(Seq<char>, JsonView)>,
    opts: Options,
)
    requires
        expanded(ActiveContextModel::empty(base), doc, base, found) is Ok,
        sound_document(expanded(ActiveContextModel::empty(base), doc, base, found)->Ok_0),
    ensures
        compacted(doc, base, JsonView::Null, found, opts) is Ok,
        expanded(
            ActiveContextModel::empty(base),
            compacted(doc, base, JsonView::Null, found, opts)->Ok_0,
            base,
            found,
        ) == expanded(ActiveContextModel::empty(base), doc, base, found),
{
    let active = ActiveContextModel::empty(base);
    let env = Env { base, found, remote: Seq::empty() };
    let objects = expanded(active, doc, base, found)->Ok_0;
    lemma_null_context(active, env, embedded(), MAX_REMOTE_CONTEXTS as nat);
    assert(!active.has_protected_terms());
    assert(propagates(JsonView::Null, embedded()));
    assert(processed(active, JsonView::Null, base, found, embedded()) == Ok::<_, ErrorCode>(active));
    lemma_round_trip(objects, base, found, opts);
}

/// What comes back from the round trip is equal to what went in, under
/// the identity renaming: where `a` holds the objects of a sound
/// document, and `b` holds what their compaction with the context without
/// terms expands to, the two are equal whatever their order.
pub proof fn lemma_round_trip_is_equal(
    a: Seq<Indexed<Object<IriBuf, BlankIdBuf>>>,
    b: Seq<Indexed<Object<IriBuf, BlankIdBuf>>>,
    base: Option<Seq<char>>,
    found: spec_fn(Seq<char>) -> Option<(Seq<char>, JsonView)>,
    opts: Options,
)
    requires
        sound_document(objects_model(a)),
        expanded(
            ActiveContextModel::empty(base),
            wrapped(
                ActiveContextModel::empty(base),
                compact_document(ActiveContextModel::empty(base), objects_model(a), opts)->Ok_0,
                JsonView::Null,
            ),
            base,
            found,
        ) == Ok::<_, ErrorCode>(objects_model(b)),
    ensures
        objects_match(a, b, identity()),
{
    lemma_round_trip(objects_model(a), base, found, opts);
    lemma_same_objects(a, b);
}

} // verus!
