//! JSON values.

use vstd::prelude::*;

use crate::assoc::{assoc_get, assoc_lookup, assoc_model};

verus! {

/// A JSON value. The entries of an object stand in the order of the source.
pub enum Json {
    /// `null`.
    Null,
    /// `true` or `false`.
    Boolean(bool),
    /// A number, in the form in which it was written.
    Number(String),
    /// A string.
    Text(String),
    /// An array.
    Array(Vec<Json>),
    /// An object.
    Object(Vec<(String, Json)>),
}

/// A JSON value as plain data.
pub enum JsonView {
    /// `null`.
    Null,
    /// `true` or `false`.
    Boolean(bool),
    /// A number, in the form in which it was written.
    Number(Seq<char>),
    /// A string.
    Text(Seq<char>),
    /// An array.
    Array(Seq<JsonView>),
    /// An object.
    Object(Seq<(Seq<char>, JsonView)>),
}

/// The plain data of the items of an array.
pub open spec fn items_view(items: Seq<Json>) -> Seq<JsonView>
    decreases items,
{
    Seq::new(
        items.len(),
        |i: int|
            if 0 <= i < items.len() {
                json_view(items[i])
            } else {
                JsonView::Null
            },
    )
}

/// The plain data of the entries of an object.
pub open spec fn entries_view(entries: Seq<(String, Json)>) -> Seq<(Seq<char>, JsonView)>
    decreases entries,
{
    Seq::new(
        entries.len(),
        |i: int|
            if 0 <= i < entries.len() {
                (entries[i].0@, json_view(entries[i].1))
            } else {
                (Seq::empty(), JsonView::Null)
            },
    )
}

/// The plain data of a JSON value.
pub open spec fn json_view(j: Json) -> JsonView
    decreases j,
{
    match j {
        Json::Null => JsonView::Null,
        Json::Boolean(b) => JsonView::Boolean(b),
        Json::Number(n) => JsonView::Number(n@),
        Json::Text(s) => JsonView::Text(s@),
        Json::Array(items) => JsonView::Array(items_view(items@)),
        Json::Object(entries) => JsonView::Object(entries_view(entries@)),
    }
}

impl View for Json {
    type V = JsonView;

    open spec fn view(&self) -> JsonView {
        json_view(*self)
    }
}

impl JsonView {
    /// The value of the first entry under `key`, where this is an object that has one.
    pub open spec fn get(self, key: Seq<char>) -> Option<JsonView> {
        match self {
            JsonView::Object(entries) => assoc_get(entries, key),
            _ => None,
        }
    }

    /// Whether this is an object with an entry under `key`.
    pub open spec fn has(self, key: Seq<char>) -> bool {
        self.get(key) is Some
    }
}

/// Adds the entry of `key` and `value` at the end of `entries`.
pub fn push_entry(entries: &mut Vec<(String, Json)>, key: &str, value: Json)
    ensures
        entries_view(final(entries)@) == entries_view(old(entries)@).push((key@, value@)),
{
    let ghost before = entries@;
    entries.push((key.to_owned(), value));
    assert(entries_view(entries@) =~= entries_view(before).push((key@, value@)));
}

/// Adds `value` at the end of `items`.
pub fn push_item(items: &mut Vec<Json>, value: Json)
    ensures
        items_view(final(items)@) == items_view(old(items)@).push(value@),
{
    let ghost before = items@;
    items.push(value);
    assert(items_view(items@) =~= items_view(before).push(value@));
}

impl Json {
    /// The string `s` as a JSON value.
    pub fn text(s: &str) -> (r: Json)
        ensures
            r@ == JsonView::Text(s@),
    {
        Json::Text(s.to_owned())
    }

    /// Whether this is `null`.
    pub fn is_null(&self) -> (r: bool)
        ensures
            r == (self@ is Null),
    {
        match self {
            Json::Null => true,
            _ => false,
        }
    }

    /// Whether this is an array or an object without anything in it.
    pub fn is_empty_array_or_object(&self) -> (r: bool)
        ensures
            r == match self@ {
                JsonView::Array(items) => items.len() == 0,
                JsonView::Object(entries) => entries.len() == 0,
                _ => false,
            },
    {
        match self {
            Json::Array(items) => items.len() == 0,
            Json::Object(entries) => entries.len() == 0,
            _ => false,
        }
    }

    /// The string that this value is, if it is one.
    pub fn as_str(&self) -> (r: Option<&str>)
        ensures
            r is Some <==> self@ is Text,
            r matches Some(s) ==> self@ == JsonView::Text(s@),
    {
        match self {
            Json::Text(s) => Some(s.as_str()),
            _ => None,
        }
    }

    /// The value of the first entry under `key`, where this is an object that has one.
    pub fn get(&self, key: &str) -> (r: Option<&Json>)
        ensures
            match r {
                Some(v) => self@.get(key@) == Some(v@),
                None => self@.get(key@) is None,
            },
    {
        match self {
            Json::Object(entries) => {
                proof {
                    lemma_entries_view(entries@);
                }
                assoc_lookup(entries, key)
            },
            _ => None,
        }
    }

    /// The truth value that this value is, if it is one.
    pub fn as_bool(&self) -> (r: Option<bool>)
        ensures
            match r {
                Some(b) => self@ == JsonView::Boolean(b),
                None => !(self@ is Boolean),
            },
    {
        match self {
            Json::Boolean(b) => Some(*b),
            _ => None,
        }
    }
}

/// The plain data of the entries of an object is that of a list of entries.
pub proof fn lemma_entries_view(entries: Seq<(String, Json)>)
    ensures
        entries_view(entries) == assoc_model(entries),
{
    assert(entries_view(entries) =~= assoc_model(entries));
}

/// Whether two JSON values are the same: the same kind, and the same content in the same order.
pub fn json_eq(a: &Json, b: &Json) -> (r: bool)
    ensures
        r == (a@ == b@),
    decreases a,
{
    match (a, b) {
        (Json::Null, Json::Null) => true,
        (Json::Boolean(x), Json::Boolean(y)) => *x == *y,
        (Json::Number(x), Json::Number(y)) => *x == *y,
        (Json::Text(x), Json::Text(y)) => *x == *y,
        (Json::Array(xs), Json::Array(ys)) => {
            if xs.len() != ys.len() {
                assert(items_view(xs@).len() != items_view(ys@).len());
                return false;
            }
            let mut k: usize = 0;
            while k < xs.len()
                invariant
                    k <= xs.len(),
                    xs.len() == ys.len(),
                    a is Array,
                    b is Array,
                    *xs == a->Array_0,
                    *ys == b->Array_0,
                    forall|i: int| 0 <= i < k ==> xs@[i]@ == ys@[i]@,
                decreases xs.len() - k,
            {
                if !json_eq(&xs[k], &ys[k]) {
                    assert(items_view(xs@)[k as int] == xs@[k as int]@);
                    assert(items_view(ys@)[k as int] == ys@[k as int]@);
                    return false;
                }
                k = k + 1;
            }
            assert(items_view(xs@) =~= items_view(ys@));
            true
        },
        (Json::Object(xs), Json::Object(ys)) => {
            if xs.len() != ys.len() {
                assert(entries_view(xs@).len() != entries_view(ys@).len());
                return false;
            }
            let mut k: usize = 0;
            while k < xs.len()
                invariant
                    k <= xs.len(),
                    xs.len() == ys.len(),
                    a is Object,
                    b is Object,
                    *xs == a->Object_0,
                    *ys == b->Object_0,
                    forall|i: int| 0 <= i < k ==> xs@[i].0@ == ys@[i].0@ && xs@[i].1@ == ys@[i].1@,
                decreases xs.len() - k,
            {
                if !(xs[k].0 == ys[k].0) || !json_eq(&xs[k].1, &ys[k].1) {
                    assert(entries_view(xs@)[k as int] == (xs@[k as int].0@, xs@[k as int].1@));
                    assert(entries_view(ys@)[k as int] == (ys@[k as int].0@, ys@[k as int].1@));
                    return false;
                }
                k = k + 1;
            }
            assert(entries_view(xs@) =~= entries_view(ys@));
            true
        },
        _ => false,
    }
}

/// A copy of `j`.
pub fn clone_json(j: &Json) -> (r: Json)
    ensures
        r@ == j@,
    decreases j,
{
    match j {
        Json::Null => Json::Null,
        Json::Boolean(b) => Json::Boolean(*b),
        Json::Number(n) => Json::Number(n.clone()),
        Json::Text(s) => Json::Text(s.clone()),
        Json::Array(items) => {
            let mut copy: Vec<Json> = Vec::new();
            let mut k: usize = 0;
            while k < items.len()
                invariant
                    k <= items.len(),
                    j is Array,
                    *items == j->Array_0,
                    copy.len() == k,
                    forall|i: int| 0 <= i < k ==> (#[trigger] copy@[i])@ == items@[i]@,
                decreases items.len() - k,
            {
                copy.push(clone_json(&items[k]));
                k = k + 1;
            }
            assert(items_view(copy@) =~= items_view(items@));
            Json::Array(copy)
        },
        Json::Object(entries) => {
            let copy = clone_entries(entries);
            Json::Object(copy)
        },
    }
}

/// A copy of the entries of an object.
pub fn clone_entries(entries: &Vec<(String, Json)>) -> (r: Vec<(String, Json)>)
    ensures
        entries_view(r@) == entries_view(entries@),
    decreases entries,
{
    let mut copy: Vec<(String, Json)> = Vec::new();
    let mut k: usize = 0;
    while k < entries.len()
        invariant
            k <= entries.len(),
            copy.len() == k,
            forall|i: int|
                0 <= i < k ==> (#[trigger] copy@[i]).0@ == entries@[i].0@ && copy@[i].1@ == entries@[i].1@,
        decreases entries.len() - k,
    {
        copy.push((entries[k].0.clone(), clone_json(&entries[k].1)));
        k = k + 1;
    }
    assert(entries_view(copy@) =~= entries_view(entries@));
    copy
}

} // verus!
