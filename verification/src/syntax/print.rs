//! Contexts as JSON values, and as JSON text.

use vstd::prelude::*;

use crate::json::{entries_view, items_view, push_entry, push_item, Json, JsonView};
use crate::object::value::Direction;
use crate::print::Print;
use crate::syntax::context::{
    contexts_model,
    direction_as_str,
    direction_keyword,
    BindingModel,
    Container,
    ContainerKind,
    ContainerModel,
    Context,
    ContextModel,
    Definition,
    DefinitionModel,
    Expanded,
    ExpandedModel,
    Nullable,
    TermDefinition,
    TermDefinitionModel,
    Value,
    ValueModel,
};

verus! {

/// The entry of `key` with `value`, where there is a value.
pub open spec fn optional_entry(key: Seq<char>, value: Option<JsonView>) -> Seq<(Seq<char>, JsonView)> {
    match value {
        Some(v) => seq![(key, v)],
        None => Seq::empty(),
    }
}

/// A string, or `null`.
pub open spec fn nullable_text_json(n: Nullable<Seq<char>>) -> JsonView {
    match n {
        Nullable::Null => JsonView::Null,
        Nullable::Given(s) => JsonView::Text(s),
    }
}

/// An optional string, or `null`.
pub open spec fn optional_nullable_text_json(n: Option<Nullable<Seq<char>>>) -> Option<JsonView> {
    match n {
        Some(n) => Some(nullable_text_json(n)),
        None => None,
    }
}

/// An optional string.
pub open spec fn optional_text_json(s: Option<Seq<char>>) -> Option<JsonView> {
    match s {
        Some(s) => Some(JsonView::Text(s)),
        None => None,
    }
}

/// An optional truth value.
pub open spec fn optional_bool_json(b: Option<bool>) -> Option<JsonView> {
    match b {
        Some(b) => Some(JsonView::Boolean(b)),
        None => None,
    }
}

/// An optional direction, or `null`.
pub open spec fn optional_direction_json(d: Option<Nullable<Direction>>) -> Option<JsonView> {
    match d {
        Some(Nullable::Given(d)) => Some(JsonView::Text(direction_keyword(d))),
        Some(Nullable::Null) => Some(JsonView::Null),
        None => None,
    }
}

/// The keywords of several kinds of container.
pub open spec fn kinds_json(ks: Seq<ContainerKind>) -> Seq<JsonView> {
    Seq::new(ks.len(), |i: int| JsonView::Text(ks[i].keyword()))
}

/// A container mapping: the keyword of its kind, or the array of the keywords of its kinds.
pub open spec fn container_json(c: ContainerModel) -> JsonView {
    match c {
        ContainerModel::One(k) => JsonView::Text(k.keyword()),
        ContainerModel::Many(ks) => JsonView::Array(kinds_json(ks)),
    }
}

/// An optional container mapping, or `null`.
pub open spec fn optional_container_json(c: Option<Nullable<ContainerModel>>) -> Option<JsonView> {
    match c {
        Some(Nullable::Given(c)) => Some(container_json(c)),
        Some(Nullable::Null) => Some(JsonView::Null),
        None => None,
    }
}

/// The `@type` entry of a context definition.
pub open spec fn context_type_json(protected: Option<bool>) -> JsonView {
    JsonView::Object(
        seq![("@container"@, JsonView::Text("@set"@))] + optional_entry(
            "@protected"@,
            optional_bool_json(protected),
        ),
    )
}

/// The first entries of a term definition written as an object: `@id`,
/// `@type`, `@context`, `@reverse`, `@index`, `@language`.
pub open spec fn expanded_head(e: ExpandedModel) -> Seq<(Seq<char>, JsonView)>
    decreases e, 0int,
{
    optional_entry("@id"@, optional_nullable_text_json(e.id)) + optional_entry(
        "@type"@,
        optional_nullable_text_json(e.type_),
    ) + optional_entry(
        "@context"@,
        match e.context {
            Some(c) => Some(value_json(*c)),
            None => None,
        },
    ) + optional_entry("@reverse"@, optional_text_json(e.reverse)) + optional_entry(
        "@index"@,
        optional_text_json(e.index),
    ) + optional_entry("@language"@, optional_nullable_text_json(e.language))
}

/// The last entries of a term definition written as an object:
/// `@direction`, `@container`, `@nest`, `@prefix`, `@propagate`, `@protected`.
pub open spec fn expanded_tail(e: ExpandedModel) -> Seq<(Seq<char>, JsonView)> {
    optional_entry("@direction"@, optional_direction_json(e.direction)) + optional_entry(
        "@container"@,
        optional_container_json(e.container),
    ) + optional_entry("@nest"@, optional_text_json(e.nest)) + optional_entry(
        "@prefix"@,
        optional_bool_json(e.prefix),
    ) + optional_entry("@propagate"@, optional_bool_json(e.propagate)) + optional_entry(
        "@protected"@,
        optional_bool_json(e.protected),
    )
}

/// A term definition written as an object: its entries, in the order `@id`,
/// `@type`, `@context`, `@reverse`, `@index`, `@language`, `@direction`,
/// `@container`, `@nest`, `@prefix`, `@propagate`, `@protected`.
pub open spec fn expanded_json(e: ExpandedModel) -> JsonView
    decreases e, 1int,
{
    JsonView::Object(expanded_head(e) + expanded_tail(e))
}

/// A term definition: a string or an object.
pub open spec fn term_definition_json(d: TermDefinitionModel) -> JsonView
    decreases d,
{
    match d {
        TermDefinitionModel::Simple(s) => JsonView::Text(s),
        TermDefinitionModel::Expanded(e) => expanded_json(*e),
    }
}

/// The definition of a term, or `null`.
pub open spec fn binding_json(b: BindingModel) -> JsonView
    decreases b,
{
    match b.definition {
        Nullable::Null => JsonView::Null,
        Nullable::Given(d) => term_definition_json(d),
    }
}

/// The entries of the terms of a context definition.
pub open spec fn bindings_json(bs: Seq<BindingModel>) -> Seq<(Seq<char>, JsonView)>
    decreases bs,
{
    Seq::new(
        bs.len(),
        |i: int|
            if 0 <= i < bs.len() {
                (bs[i].term, binding_json(bs[i]))
            } else {
                (Seq::empty(), JsonView::Null)
            },
    )
}

/// A context definition: its entries, in the order `@base`, `@import`,
/// `@language`, `@direction`, `@propagate`, `@protected`, `@type`,
/// `@version`, `@vocab`, and then its terms.
pub open spec fn definition_json(d: DefinitionModel) -> JsonView
    decreases d,
{
    JsonView::Object(
        optional_entry("@base"@, optional_nullable_text_json(d.base)) + optional_entry(
            "@import"@,
            optional_text_json(d.import),
        ) + optional_entry("@language"@, optional_nullable_text_json(d.language)) + optional_entry(
            "@direction"@,
            optional_direction_json(d.direction),
        ) + optional_entry("@propagate"@, optional_bool_json(d.propagate)) + optional_entry(
            "@protected"@,
            optional_bool_json(d.protected),
        ) + optional_entry(
            "@type"@,
            match d.type_ {
                Some(p) => Some(context_type_json(p)),
                None => None,
            },
        ) + optional_entry(
            "@version"@,
            if d.version {
                Some(JsonView::Number("1.1"@))
            } else {
                None
            },
        ) + optional_entry("@vocab"@, optional_nullable_text_json(d.vocab)) + bindings_json(d.bindings),
    )
}

/// A context: `null`, a string or an object.
pub open spec fn context_json(c: ContextModel) -> JsonView
    decreases c,
{
    match c {
        ContextModel::Null => JsonView::Null,
        ContextModel::IriRef(r) => JsonView::Text(r),
        ContextModel::Definition(d) => definition_json(d),
    }
}

/// Several contexts.
pub open spec fn contexts_json(cs: Seq<ContextModel>) -> Seq<JsonView>
    decreases cs,
{
    Seq::new(
        cs.len(),
        |i: int|
            if 0 <= i < cs.len() {
                context_json(cs[i])
            } else {
                JsonView::Null
            },
    )
}

/// The value of an `@context` entry: one context, or the array of several.
pub open spec fn value_json(v: ValueModel) -> JsonView
    decreases v,
{
    match v {
        ValueModel::One(c) => context_json(c),
        ValueModel::Many(cs) => JsonView::Array(contexts_json(cs)),
    }
}

/// The plain data of an optional JSON value.
pub open spec fn optional_view(value: Option<Json>) -> Option<JsonView> {
    match value {
        Some(v) => Some(v@),
        None => None,
    }
}

/// Adds the entry of `key` with `value` at the end of `entries`, where there is a value.
fn push_optional(entries: &mut Vec<(String, Json)>, key: &str, value: Option<Json>)
    ensures
        entries_view(final(entries)@) == entries_view(old(entries)@) + optional_entry(key@, optional_view(value)),
{
    let ghost before = entries_view(entries@);
    match value {
        Some(v) => {
            push_entry(entries, key, v);
            assert(before.push((key@, v@)) =~= before + seq![(key@, v@)]);
        },
        None => {
            assert(before =~= before + Seq::<(Seq<char>, JsonView)>::empty());
        },
    }
}

fn nullable_text_to_json(n: &Option<Nullable<String>>) -> (r: Option<Json>)
    ensures
        optional_view(r) == optional_nullable_text_json(crate::syntax::context::optional_nullable_text(*n)),
{
    match n {
        Some(Nullable::Given(s)) => Some(Json::text(s.as_str())),
        Some(Nullable::Null) => Some(Json::Null),
        None => None,
    }
}

fn text_to_json(s: &Option<String>) -> (r: Option<Json>)
    ensures
        optional_view(r) == optional_text_json(crate::object::value::text_of(*s)),
{
    match s {
        Some(s) => Some(Json::text(s.as_str())),
        None => None,
    }
}

fn bool_to_json(b: &Option<bool>) -> (r: Option<Json>)
    ensures
        optional_view(r) == optional_bool_json(*b),
{
    match b {
        Some(b) => Some(Json::Boolean(*b)),
        None => None,
    }
}

fn direction_to_json(d: &Option<Nullable<Direction>>) -> (r: Option<Json>)
    ensures
        optional_view(r) == optional_direction_json(*d),
{
    match d {
        Some(Nullable::Given(d)) => Some(Json::text(direction_as_str(*d))),
        Some(Nullable::Null) => Some(Json::Null),
        None => None,
    }
}

/// A container mapping as a JSON value.
pub fn container_value_to_json(c: &Container) -> (r: Json)
    ensures
        r@ == container_json(c@),
{
    {
        match c {
            Container::One(k) => Json::text(k.as_str()),
            Container::Many(ks) => {
                let mut items: Vec<Json> = Vec::new();
                let mut i: usize = 0;
                while i < ks.len()
                    invariant
                        i <= ks.len(),
                        items_view(items@) == kinds_json(ks@.take(i as int)),
                    decreases ks.len() - i,
                {
                    push_item(&mut items, Json::text(ks[i].as_str()));
                    assert(kinds_json(ks@.take(i as int)).push(JsonView::Text(ks@[i as int].keyword()))
                        =~= kinds_json(ks@.take(i + 1)));
                    i = i + 1;
                }
                assert(ks@.take(ks.len() as int) =~= ks@);
                Json::Array(items)
            },
        }
    }
}

fn container_to_json(c: &Option<Nullable<Container>>) -> (r: Option<Json>)
    ensures
        optional_view(r) == optional_container_json(
            match *c {
                Some(Nullable::Given(c)) => Some(Nullable::Given(c@)),
                Some(Nullable::Null) => Some(Nullable::Null),
                None => None,
            },
        ),
{
    match c {
        Some(Nullable::Given(c)) => Some(container_value_to_json(c)),
        Some(Nullable::Null) => Some(Json::Null),
        None => None,
    }
}

fn context_type_to_json(protected: &Option<bool>) -> (r: Json)
    ensures
        r@ == context_type_json(*protected),
{
    let mut entries: Vec<(String, Json)> = Vec::new();
    assert(entries_view(entries@) =~= Seq::empty());
    push_entry(&mut entries, "@container", Json::text("@set"));
    push_optional(&mut entries, "@protected", bool_to_json(protected));
    assert(Seq::<(Seq<char>, JsonView)>::empty().push(("@container"@, JsonView::Text("@set"@)))
        =~= seq![("@container"@, JsonView::Text("@set"@))]);
    Json::Object(entries)
}

/// The value of an `@context` entry as a JSON value.
pub fn value_to_json(v: &Value) -> (r: Json)
    ensures
        r@ == value_json(v@),
    decreases v,
{
    match v {
        Value::One(c) => context_to_json(c),
        Value::Many(cs) => {
            let mut items: Vec<Json> = Vec::new();
            let mut i: usize = 0;
            while i < cs.len()
                invariant
                    i <= cs.len(),
                    *v == Value::Many(*cs),
                    items_view(items@).len() == i,
                    forall|k: int| 0 <= k < i ==> #[trigger] items_view(items@)[k] == context_json(cs@[k]@),
                decreases cs.len() - i,
            {
                assert(*cs == v->Many_0);
                push_item(&mut items, context_to_json(&cs[i]));
                i = i + 1;
            }
            assert(items_view(items@) =~= contexts_json(contexts_model(cs@)));
            Json::Array(items)
        },
    }
}

/// A context as a JSON value.
pub fn context_to_json(c: &Context) -> (r: Json)
    ensures
        r@ == context_json(c@),
    decreases c,
{
    match c {
        Context::Null => Json::Null,
        Context::IriRef(r) => Json::text(r.as_str()),
        Context::Definition(d) => definition_to_json(d),
    }
}

/// A context definition as a JSON value.
pub fn definition_to_json(d: &Definition) -> (r: Json)
    ensures
        r@ == definition_json(d@),
    decreases d,
{
    let mut entries: Vec<(String, Json)> = Vec::new();
    assert(entries_view(entries@) =~= Seq::empty());
    push_optional(&mut entries, "@base", nullable_text_to_json(&d.base));
    push_optional(&mut entries, "@import", text_to_json(&d.import));
    push_optional(&mut entries, "@language", nullable_text_to_json(&d.language));
    push_optional(&mut entries, "@direction", direction_to_json(&d.direction));
    push_optional(&mut entries, "@propagate", bool_to_json(&d.propagate));
    push_optional(&mut entries, "@protected", bool_to_json(&d.protected));
    let ty = match &d.type_ {
        Some(t) => Some(context_type_to_json(&t.protected)),
        None => None,
    };
    push_optional(&mut entries, "@type", ty);
    let version = if d.version {
        Some(Json::Number("1.1".to_owned()))
    } else {
        None
    };
    push_optional(&mut entries, "@version", version);
    push_optional(&mut entries, "@vocab", nullable_text_to_json(&d.vocab));
    let ghost head = entries_view(entries@);
    let mut i: usize = 0;
    while i < d.bindings.len()
        invariant
            i <= d.bindings.len(),
            entries_view(entries@).len() == head.len() + i,
            forall|k: int| 0 <= k < head.len() ==> #[trigger] entries_view(entries@)[k] == head[k],
            forall|k: int|
                0 <= k < i ==> #[trigger] entries_view(entries@)[head.len() + k] == (
                    d.bindings@[k].term@,
                    binding_json(d.bindings@[k]@),
                ),
        decreases d.bindings.len() - i,
    {
        let b = &d.bindings[i];
        let value = match &b.definition {
            Nullable::Null => Json::Null,
            Nullable::Given(t) => term_definition_to_json(t),
        };
        push_entry(&mut entries, b.term.as_str(), value);
        i = i + 1;
    }
    proof {
        let tail = bindings_json(d@.bindings);
        assert(tail.len() == d.bindings@.len());
        assert forall|k: int| 0 <= k < tail.len() implies #[trigger] tail[k] == (
            d.bindings@[k].term@,
            binding_json(d.bindings@[k]@),
        ) by {
            assert(d@.bindings[k] == d.bindings@[k]@);
        }
        assert forall|k: int| 0 <= k < head.len() + tail.len() implies #[trigger] entries_view(entries@)[k]
            == (head + tail)[k] by {
            if k >= head.len() {
                assert(tail[k - head.len()] == (head + tail)[k]);
                assert(entries_view(entries@)[head.len() + (k - head.len())] == tail[k - head.len()]);
            }
        }
        assert(entries_view(entries@) =~= head + tail);
    }
    Json::Object(entries)
}

/// A term definition as a JSON value.
pub fn term_definition_to_json(d: &TermDefinition) -> (r: Json)
    ensures
        r@ == term_definition_json(d@),
    decreases d,
{
    match d {
        TermDefinition::Simple(s) => Json::text(s.as_str()),
        TermDefinition::Expanded(e) => expanded_to_json(e),
    }
}

/// Adds the last entries of a term definition written as an object.
fn push_expanded_tail(entries: &mut Vec<(String, Json)>, e: &Expanded)
    ensures
        entries_view(final(entries)@) == entries_view(old(entries)@) + expanded_tail(e@),
{
    let ghost start = entries_view(entries@);
    push_optional(entries, "@direction", direction_to_json(&e.direction));
    push_optional(entries, "@container", container_to_json(&e.container));
    push_optional(entries, "@nest", text_to_json(&e.nest));
    push_optional(entries, "@prefix", bool_to_json(&e.prefix));
    push_optional(entries, "@propagate", bool_to_json(&e.propagate));
    push_optional(entries, "@protected", bool_to_json(&e.protected));
    assert(entries_view(entries@) =~= start + expanded_tail(e@));
}

/// A term definition written as an object, as a JSON value.
pub fn expanded_to_json(e: &Expanded) -> (r: Json)
    ensures
        r@ == expanded_json(e@),
    decreases e,
{
    let mut entries: Vec<(String, Json)> = Vec::new();
    assert(entries_view(entries@) =~= Seq::empty());
    push_optional(&mut entries, "@id", nullable_text_to_json(&e.id));
    push_optional(&mut entries, "@type", nullable_text_to_json(&e.type_));
    let context = match &e.context {
        Some(c) => Some(value_to_json(c)),
        None => None,
    };
    push_optional(&mut entries, "@context", context);
    push_optional(&mut entries, "@reverse", text_to_json(&e.reverse));
    push_optional(&mut entries, "@index", text_to_json(&e.index));
    push_optional(&mut entries, "@language", nullable_text_to_json(&e.language));
    assert(entries_view(entries@) =~= expanded_head(e@));
    push_expanded_tail(&mut entries, e);
    Json::Object(entries)
}

impl Print for ContainerKind {
    open spec fn json(&self) -> JsonView {
        JsonView::Text(self.keyword())
    }

    fn to_json(&self) -> (r: Json) {
        Json::text(self.as_str())
    }
}

impl Print for Container {
    open spec fn json(&self) -> JsonView {
        container_json(self@)
    }

    fn to_json(&self) -> (r: Json) {
        container_value_to_json(self)
    }
}

impl Print for Expanded {
    open spec fn json(&self) -> JsonView {
        expanded_json(self@)
    }

    fn to_json(&self) -> (r: Json) {
        expanded_to_json(self)
    }
}

impl Print for TermDefinition {
    open spec fn json(&self) -> JsonView {
        term_definition_json(self@)
    }

    fn to_json(&self) -> (r: Json) {
        term_definition_to_json(self)
    }
}

impl Print for Definition {
    open spec fn json(&self) -> JsonView {
        definition_json(self@)
    }

    fn to_json(&self) -> (r: Json) {
        definition_to_json(self)
    }
}

impl Print for Context {
    open spec fn json(&self) -> JsonView {
        context_json(self@)
    }

    fn to_json(&self) -> (r: Json) {
        context_to_json(self)
    }
}

impl Print for Value {
    open spec fn json(&self) -> JsonView {
        value_json(self@)
    }

    fn to_json(&self) -> (r: Json) {
        value_to_json(self)
    }
}

} // verus!
