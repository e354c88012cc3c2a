//! Values, written in full and read again.

use vstd::prelude::*;

use crate::assoc::lemma_assoc_position_none;
use crate::compaction::model::{entry_if, keyword_alias, literal_json, value_object};
use crate::context::ActiveContextModel;
use crate::error::ErrorCode;
use crate::expansion::model::{
    context_within, entry_of, expand_element, expand_object, expand_value_object, index_of, keys_among,
    literal_of, value_direction_of, value_language_of, value_object_keys, value_type_of,
};
use crate::json::JsonView;
use crate::object::model::{IndexedObjectModel, ObjectModel, ValueModel};
use crate::processing::model::Env;
use crate::round_trip::form::sound_value;
use crate::round_trip::names::{lemma_keyword_texts, lemma_sound_name};
use crate::round_trip::steps::{
    lemma_entry_of_added, lemma_entry_of_from, lemma_keys_among_added, lemma_keys_among_from, lemma_keys_apart_added,
};
use crate::syntax::context::direction_keyword;

verus! {

/// An optional text as an optional JSON value.
pub open spec fn text_json(s: Option<Seq<char>>) -> Option<JsonView> {
    match s {
        Some(t) => Some(JsonView::Text(t)),
        None => None,
    }
}

/// The entries of a value object: `@value`, and `@type`, `@language`, `@direction` and `@index` where there are such.
pub open spec fn value_entries(
    a: JsonView,
    t: Option<JsonView>,
    l: Option<JsonView>,
    d: Option<JsonView>,
    i: Option<JsonView>,
) -> Seq<(Seq<char>, JsonView)> {
    seq![("@value"@, a)] + entry_if("@type"@, t) + entry_if("@language"@, l) + entry_if("@direction"@, d) + entry_if(
        "@index"@,
        i,
    )
}

/// What the entries of a value object hold for each keyword.
pub proof fn lemma_value_entries(
    active: ActiveContextModel,
    a: JsonView,
    t: Option<JsonView>,
    l: Option<JsonView>,
    d: Option<JsonView>,
    i: Option<JsonView>,
    keyword: Seq<char>,
)
    ensures
        entry_of(active, value_entries(a, t, l, d, i), keyword, 0) == (if keyword == "@value"@ {
            Some(a)
        } else if keyword == "@type"@ {
            t
        } else if keyword == "@language"@ {
            l
        } else if keyword == "@direction"@ {
            d
        } else if keyword == "@index"@ {
            i
        } else {
            None
        }),
        keys_among(active, value_entries(a, t, l, d, i), value_object_keys(), 0),
        forall|j: int|
            0 <= j < value_entries(a, t, l, d, i).len() ==> (#[trigger] value_entries(a, t, l, d, i)[j]).0
                != "@context"@,
{
    lemma_keyword_texts();
    let none: Seq<(Seq<char>, JsonView)> = Seq::empty();
    let e0 = seq![("@value"@, a)];
    let e1 = e0 + entry_if("@type"@, t);
    let e2 = e1 + entry_if("@language"@, l);
    let e3 = e2 + entry_if("@direction"@, d);
    let allowed = value_object_keys();
    assert(allowed[0] == "@value"@ && allowed[1] == "@type"@ && allowed[2] == "@language"@ && allowed[3]
        == "@direction"@ && allowed[4] == "@index"@);
    assert(e0 =~= none.push(("@value"@, a)));
    lemma_entry_of_from(active, none, ("@value"@, a), keyword, 0);
    lemma_keys_among_from(active, none, ("@value"@, a), allowed, 0);
    lemma_entry_of_added(active, e0, "@type"@, t, keyword);
    lemma_entry_of_added(active, e1, "@language"@, l, keyword);
    lemma_entry_of_added(active, e2, "@direction"@, d, keyword);
    lemma_entry_of_added(active, e3, "@index"@, i, keyword);
    lemma_keys_among_added(active, e0, "@type"@, t, allowed);
    lemma_keys_among_added(active, e1, "@language"@, l, allowed);
    lemma_keys_among_added(active, e2, "@direction"@, d, allowed);
    lemma_keys_among_added(active, e3, "@index"@, i, allowed);
    assert(e0[0].0 != "@context"@);
    lemma_keys_apart_added(e0, "@type"@, t, "@context"@);
    lemma_keys_apart_added(e1, "@language"@, l, "@context"@);
    lemma_keys_apart_added(e2, "@direction"@, d, "@context"@);
    lemma_keys_apart_added(e3, "@index"@, i, "@context"@);
}

/// A sound value written in full in the context without terms, and read
/// again as a value of a property that is not `@graph`, is the value.
pub proof fn lemma_value(
    base: Option<Seq<char>>,
    key: Seq<char>,
    v: ValueModel,
    index: Option<Seq<char>>,
    env: Env,
)
    requires
        sound_value(v),
        key != "@graph"@,
    ensures
        value_object(ActiveContextModel::empty(base), v, index) is Ok,
        value_object(ActiveContextModel::empty(base), v, index)->Ok_0 is Object,
        expand_element(
            ActiveContextModel::empty(base),
            Some(key),
            value_object(ActiveContextModel::empty(base), v, index)->Ok_0,
            env,
        ) == Ok::<_, ErrorCode>(seq![IndexedObjectModel { inner: ObjectModel::Value(v), index }]),
{
    let active = ActiveContextModel::empty(base);
    lemma_keyword_texts();
    if v.ty is Some {
        lemma_sound_name(base, v.ty->0, true, true);
    }
    let a = literal_json(v.literal);
    let t = text_json(v.ty);
    let l = text_json(v.language);
    let d = match v.direction {
        Some(d) => Some(JsonView::Text(direction_keyword(d))),
        None => None,
    };
    let i = text_json(index);
    let es = value_entries(a, t, l, d, i);
    assert(keyword_alias(active, "@value"@) == "@value"@);
    assert(keyword_alias(active, "@type"@) == "@type"@);
    assert(keyword_alias(active, "@language"@) == "@language"@);
    assert(keyword_alias(active, "@direction"@) == "@direction"@);
    assert(keyword_alias(active, "@index"@) == "@index"@);
    assert(value_object(active, v, index) == Ok::<_, ErrorCode>(JsonView::Object(es)));
    lemma_value_entries(active, a, t, l, d, i, "@value"@);
    lemma_value_entries(active, a, t, l, d, i, "@type"@);
    lemma_value_entries(active, a, t, l, d, i, "@language"@);
    lemma_value_entries(active, a, t, l, d, i, "@direction"@);
    lemma_value_entries(active, a, t, l, d, i, "@index"@);
    lemma_assoc_position_none(es, "@context"@);
    assert(context_within(active, JsonView::Object(es), env) == Ok::<_, ErrorCode>(active));
    assert(literal_of(a) == Some(v.literal));
    assert(value_type_of(active, t) == Ok::<_, ErrorCode>(v.ty));
    assert(value_language_of(l, v.literal) == Ok::<_, ErrorCode>(v.language));
    assert(value_direction_of(d) == Ok::<_, ErrorCode>(v.direction));
    assert(index_of(i) == Ok::<_, ErrorCode>(index));
    assert(expand_value_object(active, Some(key), es) == Ok::<_, ErrorCode>(
        seq![IndexedObjectModel { inner: ObjectModel::Value(v), index }],
    ));
    assert(expand_object(active, Some(key), es, env) == expand_value_object(active, Some(key), es));
}

} // verus!
