//! Lists of entries, each a key with a value, searched by key.
//!
//! A key may stand more than once in such a list: the first entry counts.

use vstd::prelude::*;

use crate::text::{is_key_position, key_position, lemma_key_position, lemma_no_key_position, text_eq};

verus! {

/// The plain data of a list of entries.
pub open spec fn assoc_model<V: View>(es: Seq<(String, V)>) -> Seq<(Seq<char>, V::V)> {
    Seq::new(es.len(), |i: int| (es[i].0@, es[i].1@))
}

/// The keys of a list of entries.
pub open spec fn assoc_keys<W>(m: Seq<(Seq<char>, W)>) -> Seq<Seq<char>> {
    Seq::new(m.len(), |i: int| m[i].0)
}

/// The position of the first entry of `key`, if there is one.
pub open spec fn assoc_position<W>(m: Seq<(Seq<char>, W)>, key: Seq<char>) -> Option<int> {
    key_position(assoc_keys(m), key)
}

/// Whether there is an entry of `key`.
pub open spec fn assoc_has<W>(m: Seq<(Seq<char>, W)>, key: Seq<char>) -> bool {
    assoc_position(m, key) is Some
}

/// The value of the first entry of `key`, if there is one.
pub open spec fn assoc_get<W>(m: Seq<(Seq<char>, W)>, key: Seq<char>) -> Option<W> {
    match assoc_position(m, key) {
        Some(i) => Some(m[i].1),
        None => None,
    }
}

/// The list without the first entry of `key`.
pub open spec fn assoc_without<W>(m: Seq<(Seq<char>, W)>, key: Seq<char>) -> Seq<(Seq<char>, W)> {
    match assoc_position(m, key) {
        Some(i) => m.remove(i),
        None => m,
    }
}

/// The list with `value` in the first entry of `key`, or, where there is none, in a new entry at its end.
pub open spec fn assoc_with<W>(m: Seq<(Seq<char>, W)>, key: Seq<char>, value: W) -> Seq<(Seq<char>, W)> {
    match assoc_position(m, key) {
        Some(i) => m.update(i, (key, value)),
        None => m.push((key, value)),
    }
}

/// Where the first entry of `key` stands.
pub proof fn lemma_assoc_position<W>(m: Seq<(Seq<char>, W)>, key: Seq<char>)
    ensures
        match assoc_position(m, key) {
            Some(i) => 0 <= i < m.len() && m[i].0 == key && forall|j: int| 0 <= j < i ==> (#[trigger] m[j]).0
                != key,
            None => forall|j: int| 0 <= j < m.len() ==> (#[trigger] m[j]).0 != key,
        },
{
    let keys = assoc_keys(m);
    match assoc_position(m, key) {
        Some(i) => {
            assert(is_key_position(keys, key, i));
            assert forall|j: int| 0 <= j < i implies (#[trigger] m[j]).0 != key by {
                assert(keys[j] != key);
            }
        },
        None => {
            assert forall|j: int| 0 <= j < m.len() implies (#[trigger] m[j]).0 != key by {
                if m[j].0 == key {
                    lemma_first_exists(keys, key, j);
                }
            }
        },
    }
}

/// Where a key stands at some position, it has a first position.
proof fn lemma_first_exists(keys: Seq<Seq<char>>, key: Seq<char>, j: int)
    requires
        0 <= j < keys.len(),
        keys[j] == key,
    ensures
        key_position(keys, key) is Some,
    decreases j,
{
    if forall|i: int| 0 <= i < j ==> keys[i] != key {
        assert(is_key_position(keys, key, j));
    } else {
        let i = choose|i: int| 0 <= i < j && keys[i] == key;
        lemma_first_exists(keys, key, i);
    }
}

/// Looks for the first entry of `key`.
pub fn assoc_find<V: View>(es: &Vec<(String, V)>, key: &str) -> (r: Option<usize>)
    ensures
        match r {
            Some(i) => assoc_position(assoc_model(es@), key@) == Some(i as int) && i < es.len(),
            None => assoc_position(assoc_model(es@), key@) is None,
        },
{
    let ghost keys = assoc_keys(assoc_model(es@));
    let mut i: usize = 0;
    while i < es.len()
        invariant
            i <= es.len(),
            keys == assoc_keys(assoc_model(es@)),
            forall|j: int| 0 <= j < i ==> keys[j] != key@,
        decreases es.len() - i,
    {
        if text_eq(es[i].0.as_str(), key) {
            proof {
                assert(keys[i as int] == es@[i as int].0@);
                lemma_key_position(keys, key@, i as int);
            }
            return Some(i);
        }
        assert(keys[i as int] == es@[i as int].0@);
        i = i + 1;
    }
    proof {
        lemma_no_key_position(keys, key@);
    }
    None
}

/// The value of the first entry of `key`, if there is one.
pub fn assoc_lookup<'a, V: View>(es: &'a Vec<(String, V)>, key: &str) -> (r: Option<&'a V>)
    ensures
        match r {
            Some(v) => assoc_get(assoc_model(es@), key@) == Some(v@),
            None => assoc_get(assoc_model(es@), key@) is None,
        },
{
    match assoc_find(es, key) {
        Some(i) => Some(&es[i].1),
        None => None,
    }
}

/// Takes the first entry of `key` out of the list, and gives its value.
pub fn assoc_take<V: View>(es: &mut Vec<(String, V)>, key: &str) -> (r: Option<V>)
    ensures
        assoc_model(final(es)@) == assoc_without(assoc_model(old(es)@), key@),
        match r {
            Some(v) => assoc_get(assoc_model(old(es)@), key@) == Some(v@),
            None => assoc_get(assoc_model(old(es)@), key@) is None,
        },
{
    match assoc_find(es, key) {
        Some(i) => {
            let ghost before = es@;
            let e = es.remove(i);
            assert(assoc_model(es@) =~= assoc_model(before).remove(i as int));
            Some(e.1)
        },
        None => None,
    }
}

/// Puts `value` in the first entry of `key`, or, where there is none, in a new entry at the end of the list.
pub fn assoc_put<V: View>(es: &mut Vec<(String, V)>, key: String, value: V)
    ensures
        assoc_model(final(es)@) == assoc_with(assoc_model(old(es)@), key@, value@),
{
    let ghost before = es@;
    match assoc_find(es, key.as_str()) {
        Some(i) => {
            es.set(i, (key, value));
            assert(assoc_model(es@) =~= assoc_model(before).update(i as int, (key@, value@)));
        },
        None => {
            es.push((key, value));
            assert(assoc_model(es@) =~= assoc_model(before).push((key@, value@)));
        },
    }
}

/// A position where `key` stands, before which it does not stand, is its first.
pub proof fn lemma_assoc_position_is<W>(m: Seq<(Seq<char>, W)>, key: Seq<char>, i: int)
    requires
        0 <= i < m.len(),
        m[i].0 == key,
        forall|j: int| 0 <= j < i ==> (#[trigger] m[j]).0 != key,
    ensures
        assoc_position(m, key) == Some(i),
{
    let keys = assoc_keys(m);
    assert forall|j: int| 0 <= j < i implies keys[j] != key by {
        assert(m[j].0 != key);
    }
    lemma_key_position(keys, key, i);
}

/// Where `key` stands nowhere, it has no position.
pub proof fn lemma_assoc_position_none<W>(m: Seq<(Seq<char>, W)>, key: Seq<char>)
    requires
        forall|j: int| 0 <= j < m.len() ==> (#[trigger] m[j]).0 != key,
    ensures
        assoc_position(m, key) is None,
{
    let keys = assoc_keys(m);
    assert forall|j: int| 0 <= j < keys.len() implies keys[j] != key by {
        assert(m[j].0 != key);
    }
    lemma_no_key_position(keys, key);
}

/// Without the first entry of a key, the other keys have the values that they had.
pub proof fn lemma_get_without_other<W>(m: Seq<(Seq<char>, W)>, key: Seq<char>, other: Seq<char>)
    requires
        other != key,
    ensures
        assoc_get(assoc_without(m, key), other) == assoc_get(m, other),
{
    lemma_assoc_position(m, key);
    lemma_assoc_position(m, other);
    match assoc_position(m, key) {
        None => {},
        Some(i) => {
            let r = m.remove(i);
            match assoc_position(m, other) {
                None => {
                    assert forall|j: int| 0 <= j < r.len() implies (#[trigger] r[j]).0 != other by {
                        if j < i {
                            assert(r[j] == m[j]);
                        } else {
                            assert(r[j] == m[j + 1]);
                        }
                    }
                    lemma_assoc_position_none(r, other);
                },
                Some(o) => {
                    let o2 = if o < i {
                        o
                    } else {
                        o - 1
                    };
                    assert(r[o2] == m[o]);
                    assert forall|j: int| 0 <= j < o2 implies (#[trigger] r[j]).0 != other by {
                        if j < i {
                            assert(r[j] == m[j]);
                        } else {
                            assert(r[j] == m[j + 1]);
                        }
                    }
                    lemma_assoc_position_is(r, other, o2);
                },
            }
        },
    }
}

/// Without the first entry of a key that stands once at most, the key has no value.
pub proof fn lemma_get_pushed<W>(m: Seq<(Seq<char>, W)>, key: Seq<char>, value: W, other: Seq<char>)
    ensures
        assoc_get(m.push((key, value)), other) == if assoc_get(m, other) is Some {
            assoc_get(m, other)
        } else if other == key {
            Some(value)
        } else {
            None
        },
{
    let r = m.push((key, value));
    lemma_assoc_position(m, other);
    match assoc_position(m, other) {
        Some(o) => {
            assert(r[o] == m[o]);
            assert forall|j: int| 0 <= j < o implies (#[trigger] r[j]).0 != other by {
                assert(r[j] == m[j]);
            }
            lemma_assoc_position_is(r, other, o);
        },
        None => {
            if other == key {
                assert forall|j: int| 0 <= j < m.len() implies (#[trigger] r[j]).0 != other by {
                    assert(r[j] == m[j]);
                }
                assert(r[m.len() as int] == (key, value));
                lemma_assoc_position_is(r, other, m.len() as int);
            } else {
                assert forall|j: int| 0 <= j < r.len() implies (#[trigger] r[j]).0 != other by {
                    if j < m.len() {
                        assert(r[j] == m[j]);
                    }
                }
                lemma_assoc_position_none(r, other);
            }
        },
    }
}

/// With a value put for a key, the key has that value, and the other keys have the values that they had.
pub proof fn lemma_get_with<W>(m: Seq<(Seq<char>, W)>, key: Seq<char>, value: W, other: Seq<char>)
    ensures
        assoc_get(assoc_with(m, key, value), other) == if other == key {
            Some(value)
        } else {
            assoc_get(m, other)
        },
{
    lemma_assoc_position(m, key);
    match assoc_position(m, key) {
        None => {
            lemma_get_pushed(m, key, value, other);
        },
        Some(i) => {
            let r = m.update(i, (key, value));
            lemma_assoc_position(m, other);
            match assoc_position(m, other) {
                Some(o) => {
                    assert(r[o].0 == other);
                    assert forall|j: int| 0 <= j < o implies (#[trigger] r[j]).0 != other by {
                        assert(m[j].0 != other);
                    }
                    lemma_assoc_position_is(r, other, o);
                },
                None => {
                    assert forall|j: int| 0 <= j < r.len() implies (#[trigger] r[j]).0 != other by {
                        assert(m[j].0 != other);
                    }
                    lemma_assoc_position_none(r, other);
                },
            }
        },
    }
}

} // verus!
