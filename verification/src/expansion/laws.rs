//! What holds of the expansion of documents.

use vstd::prelude::*;

use crate::assoc::{lemma_assoc_position_is, lemma_assoc_position_none};
use crate::compaction::model::term_fits;
use crate::context::{expand_iri, ActiveContextModel, TermDefinitionModel};
use crate::error::ErrorCode;
use crate::expansion::model::{holds_graphs, expand_mapped, as_list, with_objects, property_position, 
    context_of_term, context_within, embedded, entry_of, expand_element, expand_entries, expand_entry, expand_items,
    expand_object, expand_property, expand_value_object, expanded, id_of, keys_among, list_object_keys,
    set_object_keys, unwrapped, value_object_keys, NodeState,
};
use crate::json::JsonView;
use crate::object::model::{empty_node, IndexedObjectModel, NodeModel, ObjectModel};
use crate::processing::contexts::processed;
use crate::processing::laws::{lemma_array_ending_in_null_resets, lemma_process_value_keeps, protected_as};
use crate::processing::model::{process_value, Env, MAX_REMOTE_CONTEXTS};
use crate::round_trip::names::lemma_keyword_texts;
use crate::round_trip::steps::{lemma_entry_alone, lemma_entry_of_none};
use crate::text::{is_keyword, position};

verus! {

/// The entry of a context.
pub open spec fn context_entry(c: JsonView) -> (Seq<char>, JsonView) {
    ("@context"@, c)
}

/// The entries after position `k`, with the entry of a context put in
/// at position `i`, make of a node what the entries without it make.
pub proof fn lemma_entries_with_context(
    active: ActiveContextModel,
    es: Seq<(Seq<char>, JsonView)>,
    i: int,
    c: JsonView,
    k: int,
    st: NodeState,
    env: Env,
)
    requires
        0 <= i <= es.len(),
        0 <= k <= es.len() + 1,
    ensures
        expand_entries(active, es.insert(i, context_entry(c)), k, st, env) == expand_entries(
            active,
            es,
            if k <= i {
                k
            } else {
                k - 1
            },
            st,
            env,
        ),
    decreases es.len() + 1 - k,
{
    let all = es.insert(i, context_entry(c));
    if k < all.len() {
        if k == i {
            assert(all[k] == context_entry(c));
            lemma_keyword_texts();
            assert(is_keyword("@context"@));
            assert(expand_entry(active, all, k, st, env) == Ok::<_, ErrorCode>(st));
            lemma_entries_with_context(active, es, i, c, k + 1, st, env);
        } else {
            let j = if k < i {
                k
            } else {
                k - 1
            };
            assert(all[k] == es[j]);
            lemma_entry_alone(active, all, k, es, j, st, env);
            match expand_entry(active, es, j, st, env) {
                Ok(s1) => {
                    lemma_entries_with_context(active, es, i, c, k + 1, s1, env);
                },
                Err(e) => {},
            }
        }
    }
}

/// Among entries with the entry of a context put in at position `i`, what
/// stands for a keyword other than `@context` is what stands for it without.
pub proof fn lemma_entry_of_with_context(
    active: ActiveContextModel,
    es: Seq<(Seq<char>, JsonView)>,
    i: int,
    c: JsonView,
    keyword: Seq<char>,
    k: int,
)
    requires
        0 <= i <= es.len(),
        0 <= k <= es.len() + 1,
        keyword != "@context"@,
    ensures
        entry_of(active, es.insert(i, context_entry(c)), keyword, k) == entry_of(
            active,
            es,
            keyword,
            if k <= i {
                k
            } else {
                k - 1
            },
        ),
    decreases es.len() + 1 - k,
{
    let all = es.insert(i, context_entry(c));
    if k < all.len() {
        if k == i {
            assert(all[k] == context_entry(c));
        } else {
            let j = if k < i {
                k
            } else {
                k - 1
            };
            assert(all[k] == es[j]);
        }
        lemma_entry_of_with_context(active, es, i, c, keyword, k + 1);
    }
}

/// The keys of entries with the entry of a context put in at position `i` are
/// among the allowed, where `@context` is allowed, exactly when they are without it.
pub proof fn lemma_keys_among_with_context(
    active: ActiveContextModel,
    es: Seq<(Seq<char>, JsonView)>,
    i: int,
    c: JsonView,
    allowed: Seq<Seq<char>>,
    k: int,
)
    requires
        0 <= i <= es.len(),
        0 <= k <= es.len() + 1,
        allowed.contains("@context"@),
    ensures
        keys_among(active, es.insert(i, context_entry(c)), allowed, k) == keys_among(
            active,
            es,
            allowed,
            if k <= i {
                k
            } else {
                k - 1
            },
        ),
    decreases es.len() + 1 - k,
{
    let all = es.insert(i, context_entry(c));
    if k < all.len() {
        if k == i {
            assert(all[k] == context_entry(c));
        } else {
            let j = if k < i {
                k
            } else {
                k - 1
            };
            assert(all[k] == es[j]);
        }
        lemma_keys_among_with_context(active, es, i, c, allowed, k + 1);
    }
}

/// The entry of a context, wherever it stands among the entries of an
/// object, adds nothing to what the object stands for in a given active context.
pub proof fn lemma_object_with_context(
    active: ActiveContextModel,
    property: Option<Seq<char>>,
    es: Seq<(Seq<char>, JsonView)>,
    i: int,
    c: JsonView,
    env: Env,
)
    requires
        0 <= i <= es.len(),
    ensures
        expand_object(active, property, es.insert(i, context_entry(c)), env) == expand_object(active, property, es, env),
{
    let all = es.insert(i, context_entry(c));
    lemma_keyword_texts();
    lemma_entry_of_with_context(active, es, i, c, "@value"@, 0);
    lemma_entry_of_with_context(active, es, i, c, "@list"@, 0);
    lemma_entry_of_with_context(active, es, i, c, "@set"@, 0);
    lemma_entry_of_with_context(active, es, i, c, "@type"@, 0);
    lemma_entry_of_with_context(active, es, i, c, "@language"@, 0);
    lemma_entry_of_with_context(active, es, i, c, "@direction"@, 0);
    lemma_entry_of_with_context(active, es, i, c, "@index"@, 0);
    assert(value_object_keys()[5] == "@context"@);
    assert(list_object_keys()[2] == "@context"@);
    assert(set_object_keys()[2] == "@context"@);
    lemma_keys_among_with_context(active, es, i, c, value_object_keys(), 0);
    lemma_keys_among_with_context(active, es, i, c, list_object_keys(), 0);
    lemma_keys_among_with_context(active, es, i, c, set_object_keys(), 0);
    lemma_entries_with_context(active, es, i, c, 0, NodeState { node: empty_node(), index: None }, env);
    assert(expand_value_object(active, property, all) == expand_value_object(active, property, es));
}

/// A context that ends in `null` leaves nothing behind.
///
/// A document whose context is an array that ends in `null` stands for
/// what the same document without the context stands for in the context
/// without terms, with the base IRI that the contexts of the array have
/// left. Where the contexts cannot be processed, the document cannot be expanded.
pub proof fn lemma_null_context_in_document(
    active: ActiveContextModel,
    es: Seq<(Seq<char>, JsonView)>,
    i: int,
    items: Seq<JsonView>,
    base: Option<Seq<char>>,
    found: spec_fn(Seq<char>) -> Option<(Seq<char>, JsonView)>,
)
    requires
        0 <= i <= es.len(),
        forall|j: int| 0 <= j < es.len() ==> (#[trigger] es[j]).0 != "@context"@,
        items.len() > 0,
        items.last() == JsonView::Null,
    ensures
        match processed(active, JsonView::Array(items), base, found, embedded()) {
            Ok(r) => r == ActiveContextModel::empty(r.base) && expanded(
                active,
                JsonView::Object(es.insert(i, context_entry(JsonView::Array(items)))),
                base,
                found,
            ) == expanded(ActiveContextModel::empty(r.base), JsonView::Object(es), base, found),
            Err(e) => expanded(
                active,
                JsonView::Object(es.insert(i, context_entry(JsonView::Array(items)))),
                base,
                found,
            ) == Err::<Seq<IndexedObjectModel>, ErrorCode>(e),
        },
{
    let env = Env { base, found, remote: Seq::empty() };
    let c = JsonView::Array(items);
    let all = es.insert(i, context_entry(c));
    assert(all[i] == context_entry(c));
    assert forall|j: int| 0 <= j < i implies (#[trigger] all[j]).0 != "@context"@ by {
        assert(all[j] == es[j]);
    }
    lemma_assoc_position_is(all, "@context"@, i);
    lemma_assoc_position_none(es, "@context"@);
    assert(JsonView::Object(all).get("@context"@) == Some(c));
    assert(JsonView::Object(es).get("@context"@) is None);
    match process_value(active, c, env, embedded(), MAX_REMOTE_CONTEXTS as nat) {
        Ok(r) => {
            lemma_array_ending_in_null_resets(active, items, env, embedded(), MAX_REMOTE_CONTEXTS as nat);
            lemma_object_with_context(r, None, es, i, c, env);
            assert(context_within(active, JsonView::Object(all), env) == Ok::<_, ErrorCode>(r));
            assert(context_within(r, JsonView::Object(es), env) == Ok::<_, ErrorCode>(r));
        },
        Err(e) => {
            assert(context_within(active, JsonView::Object(all), env) == Err::<ActiveContextModel, ErrorCode>(e));
        },
    }
}

/// A document cannot give a protected term another definition.
///
/// Where `t` is protected in the active context, the context of a
/// document either leaves `t` as it is, or cannot be processed, and the
/// document then cannot be expanded, whatever else it holds.
pub proof fn lemma_document_keeps_protected_terms(
    active: ActiveContextModel,
    es: Seq<(Seq<char>, JsonView)>,
    c: JsonView,
    base: Option<Seq<char>>,
    found: spec_fn(Seq<char>) -> Option<(Seq<char>, JsonView)>,
    t: Seq<char>,
    p: TermDefinitionModel,
)
    requires
        JsonView::Object(es).get("@context"@) == Some(c),
        protected_as(active, t, p),
    ensures
        match processed(active, c, base, found, embedded()) {
            Ok(r) => protected_as(r, t, p),
            Err(e) => expanded(active, JsonView::Object(es), base, found) == Err::<Seq<IndexedObjectModel>, ErrorCode>(e),
        },
{
    let env = Env { base, found, remote: Seq::empty() };
    lemma_process_value_keeps(active, c, env, embedded(), MAX_REMOTE_CONTEXTS as nat, t, p);
}

/// What an array under a term with a list container adds to a node without properties.
proof fn lemma_array_under_list_term(
    active: ActiveContextModel,
    key: Seq<char>,
    iri: Seq<char>,
    value: JsonView,
    st: NodeState,
    env: Env,
)
    requires
        active.get(key) is Some,
        term_fits(active.get(key)->0, iri, true, false),
        value is Array,
        st.node.properties.len() == 0,
        expand_element(active, Some(key), value, env) is Ok,
    ensures
        expand_property(active, key, iri, value, st, false, env) == Ok::<_, ErrorCode>(
            NodeState {
                node: NodeModel {
                    properties: seq![
                        (
                            id_of(iri),
                            seq![
                                IndexedObjectModel {
                                    inner: ObjectModel::List(expand_element(active, Some(key), value, env)->Ok_0),
                                    index: None,
                                },
                            ],
                        ),
                    ],
                    ..st.node
                },
                ..st
            },
        ),
{
    let objects = expand_element(active, Some(key), value, env)->Ok_0;
    assert(context_of_term(active, active.get(key), env) == Ok::<_, ErrorCode>(active));
    assert(expand_mapped(active, active, key, value, env) == expand_element(active, Some(key), value, env));
    assert(!holds_graphs(active.get(key)));
    let list = seq![IndexedObjectModel { inner: ObjectModel::List(objects), index: None }];
    assert(as_list(objects, true) == list);
    assert(property_position(st.node.properties, id_of(iri), 0) is None);
    assert(with_objects(st.node.properties, id_of(iri), list) =~= seq![(id_of(iri), list)]);
}

/// A term with a list container makes one list of an array.
///
/// Where `key` is a term that stands for the property `iri`, with a
/// list container, no context of its own, and not as a reverse property,
/// the document that holds nothing but an array under `key` stands for
/// one node with the one property `iri`, whose one object is the list of
/// the objects that the items of the array stand for, in their order.
pub proof fn lemma_list_term_in_document(
    active: ActiveContextModel,
    key: Seq<char>,
    iri: Seq<char>,
    items: Seq<JsonView>,
    base: Option<Seq<char>>,
    found: spec_fn(Seq<char>) -> Option<(Seq<char>, JsonView)>,
)
    requires
        active.get(key) is Some,
        term_fits(active.get(key)->0, iri, true, false),
        expand_iri(active, key, false, true) == Some(iri),
        !is_keyword(iri),
        position(iri, ':') is Some,
    ensures
        match expand_items(
            active,
            Some(key),
            items,
            items.len() as int,
            Env { base, found, remote: Seq::empty() },
        ) {
            Ok(objects) => expanded(active, JsonView::Object(seq![(key, JsonView::Array(items))]), base, found) == Ok::<
                _,
                ErrorCode,
            >(
                seq![
                    IndexedObjectModel {
                        inner: ObjectModel::Node(
                            NodeModel {
                                properties: seq![
                                    (
                                        id_of(iri),
                                        seq![IndexedObjectModel { inner: ObjectModel::List(objects), index: None }],
                                    ),
                                ],
                                ..empty_node()
                            },
                        ),
                        index: None,
                    },
                ],
            ),
            Err(e) => expanded(active, JsonView::Object(seq![(key, JsonView::Array(items))]), base, found) == Err::<
                Seq<IndexedObjectModel>,
                ErrorCode,
            >(e),
        },
{
    let env = Env { base, found, remote: Seq::empty() };
    let value = JsonView::Array(items);
    let es = seq![(key, value)];
    let start = NodeState { node: empty_node(), index: None };
    assert(is_keyword("@context"@) && is_keyword("@value"@) && is_keyword("@list"@) && is_keyword("@set"@));
    assert(is_keyword("@id"@) && is_keyword("@type"@) && is_keyword("@graph"@) && is_keyword("@included"@)
        && is_keyword("@index"@) && is_keyword("@reverse"@));
    assert(key != "@context"@);
    assert forall|j: int| 0 <= j < es.len() implies (#[trigger] es[j]).0 != "@context"@ by {}
    lemma_assoc_position_none(es, "@context"@);
    assert(context_within(active, JsonView::Object(es), env) == Ok::<_, ErrorCode>(active));
    assert forall|j: int| 0 <= j < es.len() implies expand_iri(active, (#[trigger] es[j]).0, false, true) != Some(
        "@value"@,
    ) && expand_iri(active, es[j].0, false, true) != Some("@list"@) && expand_iri(active, es[j].0, false, true)
        != Some("@set"@) by {}
    lemma_entry_of_none(active, es, "@value"@, 0);
    lemma_entry_of_none(active, es, "@list"@, 0);
    lemma_entry_of_none(active, es, "@set"@, 0);
    assert(context_of_term(active, active.get(key), env) == Ok::<_, ErrorCode>(active));
    assert(expand_element(active, Some(key), value, env) == expand_items(active, Some(key), items, items.len() as int, env));
    assert(expand_mapped(active, active, key, value, env) == expand_element(active, Some(key), value, env));
    assert(!holds_graphs(active.get(key)));
    assert(expand_entry(active, es, 0, start, env) == expand_property(active, key, iri, value, start, false, env));
    match expand_items(active, Some(key), items, items.len() as int, env) {
        Ok(objects) => {
            lemma_array_under_list_term(active, key, iri, value, start, env);
            let st = expand_property(active, key, iri, value, start, false, env)->Ok_0;
            assert(expand_entries(active, es, 1, st, env) == Ok::<_, ErrorCode>(st));
            assert(expand_entries(active, es, 0, start, env) == Ok::<_, ErrorCode>(st));
            let list = IndexedObjectModel { inner: ObjectModel::List(objects), index: None };
            assert(st.node.properties =~= seq![(id_of(iri), seq![list])]);
            assert(st.node == NodeModel { properties: seq![(id_of(iri), seq![list])], ..empty_node() });
            let whole = seq![IndexedObjectModel { inner: ObjectModel::Node(st.node), index: st.index }];
            assert(expand_object(active, None, es, env) == Ok::<_, ErrorCode>(whole));
            assert(unwrapped(whole) == whole);
        },
        Err(e) => {
            assert(expand_property(active, key, iri, value, start, false, env) == Err::<NodeState, ErrorCode>(e));
            assert(expand_entries(active, es, 0, start, env) == Err::<NodeState, ErrorCode>(e));
        },
    }
}

} // verus!
