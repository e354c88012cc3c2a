//! Expansion, one entry and one item at a time.

use vstd::prelude::*;

use crate::compaction::model::entry_if;
use crate::context::{expand_iri, ActiveContextModel};
use crate::error::ErrorCode;
use crate::expansion::model::{
    entry_of,
    expand_element,
    expand_entries,
    expand_entry,
    expand_items,
    expand_reverse,
    keys_among,
    nodes_of,
    property_position,
    NodeState,
};
use crate::json::JsonView;
use crate::object::model::{IdModel, IndexedNodeModel, IndexedObjectModel, ObjectModel};
use crate::processing::model::Env;

verus! {

/// What the one entry of `key` with `value` adds to a node in the making.
pub open spec fn expand_one(
    active: ActiveContextModel,
    key: Seq<char>,
    value: JsonView,
    st: NodeState,
    env: Env,
) -> Result<NodeState, ErrorCode> {
    expand_entry(active, seq![(key, value)], 0, st, env)
}

/// What an entry adds to a node depends on the entry alone, not on where it stands.
pub proof fn lemma_entry_alone(
    active: ActiveContextModel,
    a: Seq<(Seq<char>, JsonView)>,
    i: int,
    b: Seq<(Seq<char>, JsonView)>,
    j: int,
    st: NodeState,
    env: Env,
)
    requires
        0 <= i < a.len(),
        0 <= j < b.len(),
        a[i] == b[j],
    ensures
        expand_entry(active, a, i, st, env) == expand_entry(active, b, j, st, env),
{
}

/// The entries from `k` on with one more entry at the end: the entries
/// from `k` on are taken, and then the one.
pub proof fn lemma_entries_from(
    active: ActiveContextModel,
    es: Seq<(Seq<char>, JsonView)>,
    x: (Seq<char>, JsonView),
    k: int,
    st: NodeState,
    env: Env,
)
    requires
        0 <= k <= es.len(),
    ensures
        expand_entries(active, es.push(x), k, st, env) == (match expand_entries(active, es, k, st, env) {
            Err(e) => Err(e),
            Ok(s1) => expand_one(active, x.0, x.1, s1, env),
        }),
    decreases es.len() - k,
{
    let all = es.push(x);
    if k == es.len() {
        lemma_entry_alone(active, all, k, seq![(x.0, x.1)], 0, st, env);
        match expand_entry(active, all, k, st, env) {
            Ok(s1) => {
                assert(expand_entries(active, all, k + 1, s1, env) == Ok::<NodeState, ErrorCode>(s1));
            },
            Err(e) => {},
        }
    } else {
        lemma_entry_alone(active, all, k, es, k, st, env);
        match expand_entry(active, es, k, st, env) {
            Ok(s1) => {
                lemma_entries_from(active, es, x, k + 1, s1, env);
            },
            Err(e) => {},
        }
    }
}

/// Entries with one more entry, where there is one: the entries are taken, and then the one.
pub proof fn lemma_entries_added(
    active: ActiveContextModel,
    es: Seq<(Seq<char>, JsonView)>,
    key: Seq<char>,
    value: Option<JsonView>,
    st: NodeState,
    env: Env,
)
    ensures
        expand_entries(active, es + entry_if(key, value), 0, st, env) == (match value {
            None => expand_entries(active, es, 0, st, env),
            Some(v) => match expand_entries(active, es, 0, st, env) {
                Err(e) => Err(e),
                Ok(s1) => expand_one(active, key, v, s1, env),
            },
        }),
{
    match value {
        None => {
            assert(es + entry_if(key, value) =~= es);
        },
        Some(v) => {
            assert(es + entry_if(key, value) =~= es.push((key, v)));
            lemma_entries_from(active, es, (key, v), 0, st, env);
        },
    }
}

/// What one entry within an `@reverse` entry adds to a node in the making, before the entries after it are taken.
pub open spec fn reverse_step(
    active: ActiveContextModel,
    key: Seq<char>,
    value: JsonView,
    st: NodeState,
    env: Env,
) -> Result<NodeState, ErrorCode> {
    match expand_iri(active, key, false, true) {
        None => Ok(st),
        Some(e) => if crate::text::is_keyword(e) || crate::text::position(e, ':') is None {
            Ok(st)
        } else {
            crate::expansion::model::expand_property(active, key, e, value, st, true, env)
        },
    }
}

/// The entries of an `@reverse` entry are taken one after the other.
pub proof fn lemma_reverse_unfold(
    active: ActiveContextModel,
    es: Seq<(Seq<char>, JsonView)>,
    k: int,
    st: NodeState,
    env: Env,
)
    ensures
        expand_reverse(active, es, k, st, env) == (if k < 0 || k >= es.len() {
            Ok(st)
        } else {
            match reverse_step(active, es[k].0, es[k].1, st, env) {
                Err(e) => Err(e),
                Ok(s1) => expand_reverse(active, es, k + 1, s1, env),
            }
        }),
{
}

/// The entries of an `@reverse` entry from `k` on with one more at the end.
pub proof fn lemma_reverse_from(
    active: ActiveContextModel,
    es: Seq<(Seq<char>, JsonView)>,
    x: (Seq<char>, JsonView),
    k: int,
    st: NodeState,
    env: Env,
)
    requires
        0 <= k <= es.len(),
    ensures
        expand_reverse(active, es.push(x), k, st, env) == (match expand_reverse(active, es, k, st, env) {
            Err(e) => Err(e),
            Ok(s1) => reverse_step(active, x.0, x.1, s1, env),
        }),
    decreases es.len() - k,
{
    let all = es.push(x);
    lemma_reverse_unfold(active, all, k, st, env);
    lemma_reverse_unfold(active, es, k, st, env);
    if k == es.len() {
        assert(all[k] == x);
        match reverse_step(active, x.0, x.1, st, env) {
            Ok(s1) => {
                lemma_reverse_unfold(active, all, k + 1, s1, env);
            },
            Err(e) => {},
        }
    } else {
        assert(all[k] == es[k]);
        match reverse_step(active, es[k].0, es[k].1, st, env) {
            Ok(s1) => {
                lemma_reverse_from(active, es, x, k + 1, s1, env);
            },
            Err(e) => {},
        }
    }
}

/// The first `k` items of an array are taken the same way whatever follows them.
pub proof fn lemma_items_before(
    active: ActiveContextModel,
    property: Option<Seq<char>>,
    items: Seq<JsonView>,
    x: JsonView,
    k: int,
    env: Env,
)
    requires
        0 <= k <= items.len(),
    ensures
        expand_items(active, property, items.push(x), k, env) == expand_items(active, property, items, k, env),
    decreases k,
{
    if k > 0 {
        lemma_items_before(active, property, items, x, k - 1, env);
        assert(items.push(x)[k - 1] == items[k - 1]);
    }
}

/// An array with one more item that is no array: the objects of the
/// items that were there, and then those of the one.
pub proof fn lemma_items_pushed(
    active: ActiveContextModel,
    property: Option<Seq<char>>,
    items: Seq<JsonView>,
    x: JsonView,
    env: Env,
)
    requires
        !(x is Array),
    ensures
        expand_items(active, property, items.push(x), items.len() as int + 1, env) == (match expand_items(
            active,
            property,
            items,
            items.len() as int,
            env,
        ) {
            Err(e) => Err(e),
            Ok(before) => match expand_element(active, property, x, env) {
                Err(e) => Err(e),
                Ok(objects) => Ok(before + objects),
            },
        }),
{
    lemma_items_before(active, property, items, x, items.len() as int, env);
    assert(items.push(x)[items.len() as int] == x);
}

/// Among entries with one more entry, the value that stands for a keyword is the
/// one that was found before; else that of the new entry, where its key stands for the keyword.
pub proof fn lemma_entry_of_from(
    active: ActiveContextModel,
    es: Seq<(Seq<char>, JsonView)>,
    x: (Seq<char>, JsonView),
    keyword: Seq<char>,
    k: int,
)
    requires
        0 <= k <= es.len(),
    ensures
        entry_of(active, es.push(x), keyword, k) == (if entry_of(active, es, keyword, k) is Some {
            entry_of(active, es, keyword, k)
        } else if expand_iri(active, x.0, false, true) == Some(keyword) {
            Some(x.1)
        } else {
            None
        }),
    decreases es.len() - k,
{
    let all = es.push(x);
    if k == es.len() {
        assert(all[k] == x);
        assert(entry_of(active, all, keyword, k + 1) is None);
    } else {
        assert(all[k] == es[k]);
        lemma_entry_of_from(active, es, x, keyword, k + 1);
    }
}

/// The keys of entries with one more entry are among the allowed where those
/// of the entries are, and that of the new entry.
pub proof fn lemma_keys_among_from(
    active: ActiveContextModel,
    es: Seq<(Seq<char>, JsonView)>,
    x: (Seq<char>, JsonView),
    allowed: Seq<Seq<char>>,
    k: int,
)
    requires
        0 <= k <= es.len(),
    ensures
        keys_among(active, es.push(x), allowed, k) == (keys_among(active, es, allowed, k) && (match expand_iri(
            active,
            x.0,
            false,
            true,
        ) {
            Some(e) => allowed.contains(e),
            None => false,
        })),
    decreases es.len() - k,
{
    let all = es.push(x);
    if k == es.len() {
        assert(all[k] == x);
        assert(keys_among(active, all, allowed, k + 1));
    } else {
        assert(all[k] == es[k]);
        lemma_keys_among_from(active, es, x, allowed, k + 1);
    }
}

/// What is found among entries with one more entry whose key is a keyword, where there is one.
pub proof fn lemma_entry_of_added(
    active: ActiveContextModel,
    es: Seq<(Seq<char>, JsonView)>,
    key: Seq<char>,
    value: Option<JsonView>,
    keyword: Seq<char>,
)
    requires
        crate::text::is_keyword(key),
    ensures
        entry_of(active, es + entry_if(key, value), keyword, 0) == (if entry_of(active, es, keyword, 0) is Some {
            entry_of(active, es, keyword, 0)
        } else if key == keyword {
            value
        } else {
            None
        }),
{
    match value {
        None => {
            assert(es + entry_if(key, value) =~= es);
        },
        Some(v) => {
            assert(es + entry_if(key, value) =~= es.push((key, v)));
            lemma_entry_of_from(active, es, (key, v), keyword, 0);
        },
    }
}

/// Whether the keys of entries with one more entry whose key is a keyword, where
/// there is one, are among the allowed.
pub proof fn lemma_keys_among_added(
    active: ActiveContextModel,
    es: Seq<(Seq<char>, JsonView)>,
    key: Seq<char>,
    value: Option<JsonView>,
    allowed: Seq<Seq<char>>,
)
    requires
        crate::text::is_keyword(key),
    ensures
        keys_among(active, es + entry_if(key, value), allowed, 0) == (keys_among(active, es, allowed, 0) && (value is Some
            ==> allowed.contains(key))),
{
    match value {
        None => {
            assert(es + entry_if(key, value) =~= es);
        },
        Some(v) => {
            assert(es + entry_if(key, value) =~= es.push((key, v)));
            lemma_keys_among_from(active, es, (key, v), allowed, 0);
        },
    }
}

/// No key of entries with one more entry, where there is one, is `other`, where
/// none was and that of the new entry is not.
pub proof fn lemma_keys_apart_added(
    es: Seq<(Seq<char>, JsonView)>,
    key: Seq<char>,
    value: Option<JsonView>,
    other: Seq<char>,
)
    requires
        key != other,
        forall|j: int| 0 <= j < es.len() ==> (#[trigger] es[j]).0 != other,
    ensures
        forall|j: int| 0 <= j < (es + entry_if(key, value)).len() ==> (#[trigger] (es + entry_if(key, value))[j]).0 != other,
{
    let all = es + entry_if(key, value);
    assert forall|j: int| 0 <= j < all.len() implies (#[trigger] all[j]).0 != other by {
        if j < es.len() {
            assert(all[j] == es[j]);
        }
    }
}

/// No entry stands for a keyword where no key does.
pub proof fn lemma_entry_of_none(
    active: ActiveContextModel,
    es: Seq<(Seq<char>, JsonView)>,
    keyword: Seq<char>,
    k: int,
)
    requires
        0 <= k,
        forall|j: int| 0 <= j < es.len() ==> expand_iri(active, (#[trigger] es[j]).0, false, true) != Some(keyword),
    ensures
        entry_of(active, es, keyword, k) is None,
    decreases es.len() - k,
{
    if k < es.len() {
        assert(expand_iri(active, es[k].0, false, true) != Some(keyword));
        lemma_entry_of_none(active, es, keyword, k + 1);
    }
}

/// A property that stands nowhere has no position.
pub proof fn lemma_no_property<V>(ps: Seq<(IdModel, V)>, id: IdModel, k: int)
    requires
        0 <= k,
        forall|j: int| 0 <= j < ps.len() ==> (#[trigger] ps[j]).0 != id,
    ensures
        property_position(ps, id, k) is None,
    decreases ps.len() - k,
{
    if k < ps.len() {
        assert(ps[k].0 != id);
        lemma_no_property(ps, id, k + 1);
    }
}

/// Nodes as objects.
pub open spec fn objects_of_nodes(ns: Seq<IndexedNodeModel>) -> Seq<IndexedObjectModel> {
    Seq::new(ns.len(), |i: int| IndexedObjectModel { inner: ObjectModel::Node(ns[i].inner), index: ns[i].index })
}

/// Nodes as objects are nodes: the first `k` of them are the first `k` nodes.
pub proof fn lemma_nodes_of(ns: Seq<IndexedNodeModel>, k: int)
    requires
        0 <= k <= ns.len(),
    ensures
        nodes_of(objects_of_nodes(ns), k) == Some(ns.subrange(0, k)),
    decreases k,
{
    if k > 0 {
        lemma_nodes_of(ns, k - 1);
        let ix = ns[k - 1];
        assert(ns.subrange(0, k - 1).push(IndexedNodeModel { inner: ix.inner, index: ix.index }) =~= ns.subrange(0, k));
    } else {
        assert(ns.subrange(0, 0) =~= Seq::<IndexedNodeModel>::empty());
    }
}

} // verus!
