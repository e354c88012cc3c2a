//! What the compaction of a document comes to.

use vstd::prelude::*;

use crate::assoc::assoc_position;
use crate::context::{ActiveContextModel, TermDefinitionModel};
use crate::error::ErrorCode;
use crate::expansion::model::{direction_of_property, expand_scalar, is_bare, map_tag};
use crate::json::JsonView;
use crate::object::model::{IdModel, IndexedNodeModel, IndexedObjectModel, NodeModel, ObjectModel, ValueModel};
use crate::object::value::LiteralModel;
use crate::syntax::context::{direction_keyword, ContainerKind};
use crate::text::{begins_with, position, position_from};

verus! {

/// How a document is to be compacted.
///
/// The entries of a node are written in a fixed order: its identifier, its
/// types, its index, its properties in the order in which the node holds
/// them, its reverse properties, the nodes that it includes, and its graph.
/// They are not sorted.
#[derive(Clone, Copy, PartialEq, Eq, Structural, Debug)]
pub struct Options {
    /// Whether an array of one item is written as that item.
    pub compact_arrays: bool,
}

/// Whether `a` stands before `b` in the order of the dictionary, from position `k` on.
pub open spec fn text_before(a: Seq<char>, b: Seq<char>, k: int) -> bool
    decreases a.len() - k,
{
    if k < 0 || k >= a.len() {
        k < b.len()
    } else if k >= b.len() {
        false
    } else if (a[k] as u32) < (b[k] as u32) {
        true
    } else if (a[k] as u32) > (b[k] as u32) {
        false
    } else {
        text_before(a, b, k + 1)
    }
}

/// Whether the term `a` is to be taken rather than `b`: it is shorter, or as long and before it in the order
/// of the dictionary.
pub open spec fn term_before(a: Seq<char>, b: Seq<char>) -> bool {
    a.len() < b.len() || (a.len() == b.len() && text_before(a, b, 0))
}

/// Whether the kinds of container hold one under which what is written is
/// read otherwise than it stands: as a map of languages, indexes,
/// identifiers or types, or as graphs.
pub open spec fn is_map_container(kinds: Seq<ContainerKind>) -> bool {
    kinds.contains(ContainerKind::Language) || kinds.contains(ContainerKind::Index) || kinds.contains(
        ContainerKind::Id,
    ) || kinds.contains(ContainerKind::Type) || kinds.contains(ContainerKind::Graph)
}

/// Whether a term with the definition `def` can stand for `iri`: it stands
/// for it, is a reverse property or not as asked, has a list container or
/// not as asked, has no container under which what is written would be
/// read otherwise than it stands, and has no context of its own.
pub open spec fn term_fits(def: TermDefinitionModel, iri: Seq<char>, list: bool, reverse: bool) -> bool {
    def.iri == Some(iri) && def.reverse == reverse && def.container.contains(ContainerKind::List) == list
        && !is_map_container(def.container) && def.context is None
}

/// The term to take for `iri` among the first `k` terms: of those that fit, the shortest, and among
/// those the first in the order of the dictionary.
pub open spec fn best_term(
    terms: Seq<(Seq<char>, TermDefinitionModel)>,
    iri: Seq<char>,
    list: bool,
    reverse: bool,
    k: int,
) -> Option<Seq<char>>
    decreases k,
{
    if k <= 0 || k > terms.len() {
        None
    } else {
        let before = best_term(terms, iri, list, reverse, k - 1);
        if term_fits(terms[k - 1].1, iri, list, reverse) && (before is None || term_before(
            terms[k - 1].0,
            before->0,
        )) {
            Some(terms[k - 1].0)
        } else {
            before
        }
    }
}

/// The compact IRI that the term `term` with the definition `def` gives
/// for `iri`, if it gives one: the term is a prefix, what it stands for is
/// the beginning of `iri` and not all of it, and the compact IRI is no term.
pub open spec fn compact_iri_with(
    active: ActiveContextModel,
    term: Seq<char>,
    def: TermDefinitionModel,
    iri: Seq<char>,
) -> Option<Seq<char>> {
    if def.prefix && def.iri is Some && begins_with(iri, def.iri->0) && iri.len() > def.iri->0.len() {
        let candidate = term + ":"@ + iri.subrange(def.iri->0.len() as int, iri.len() as int);
        if active.get(candidate) is None {
            Some(candidate)
        } else {
            None
        }
    } else {
        None
    }
}

/// The compact IRI to take for `iri` among those that the first `k` terms give.
pub open spec fn best_compact_iri(active: ActiveContextModel, iri: Seq<char>, k: int) -> Option<Seq<char>>
    decreases k,
{
    if k <= 0 || k > active.terms.len() {
        None
    } else {
        let before = best_compact_iri(active, iri, k - 1);
        let candidate = compact_iri_with(active, active.terms[k - 1].0, active.terms[k - 1].1, iri);
        if candidate is Some && (before is None || term_before(candidate->0, before->0)) {
            candidate
        } else {
            before
        }
    }
}

/// What stands after the vocabulary mapping in `iri`, where `iri` begins
/// with it and what stands after it is a name without a colon that is no term.
pub open spec fn vocab_suffix(active: ActiveContextModel, iri: Seq<char>) -> Option<Seq<char>> {
    if active.vocab is Some && begins_with(iri, active.vocab->0) && iri.len() > active.vocab->0.len() {
        let suffix = iri.subrange(active.vocab->0.len() as int, iri.len() as int);
        if active.get(suffix) is None && position(suffix, ':') is None {
            Some(suffix)
        } else {
            None
        }
    } else {
        None
    }
}

/// Whether `iri` would be read as a compact IRI: a term that is a prefix
/// stands before its first colon, and no `//` after it.
pub open spec fn confused_with_prefix(active: ActiveContextModel, iri: Seq<char>) -> bool {
    match position_from(iri, ':', 1) {
        Some(i) => (match active.get(iri.subrange(0, i)) {
            Some(d) => d.prefix,
            None => false,
        }) && !begins_with(iri.subrange(i + 1, iri.len() as int), "//"@),
        None => false,
    }
}

/// The shortest way to write `iri`: where terms count, the best term
/// that fits, or what stands after the vocabulary mapping; else the best
/// compact IRI; else the IRI itself.
pub open spec fn compact_iri(
    active: ActiveContextModel,
    iri: Seq<char>,
    vocab: bool,
    list: bool,
    reverse: bool,
) -> Result<Seq<char>, ErrorCode> {
    let term = if vocab {
        best_term(active.terms, iri, list, reverse, active.terms.len() as int)
    } else {
        None
    };
    if term is Some {
        Ok(term->0)
    } else if vocab && vocab_suffix(active, iri) is Some {
        Ok(vocab_suffix(active, iri)->0)
    } else if best_compact_iri(active, iri, active.terms.len() as int) is Some {
        Ok(best_compact_iri(active, iri, active.terms.len() as int)->0)
    } else if confused_with_prefix(active, iri) {
        Err(ErrorCode::IriConfusedWithPrefix)
    } else {
        Ok(iri)
    }
}

/// The way to write a keyword: the best term that stands for it, or the keyword itself.
pub open spec fn keyword_alias(active: ActiveContextModel, keyword: Seq<char>) -> Seq<char> {
    match best_term(active.terms, keyword, false, false, active.terms.len() as int) {
        Some(t) => t,
        None => keyword,
    }
}

/// The text of an identifier.
pub open spec fn id_text(id: IdModel) -> Seq<char> {
    match id {
        IdModel::Iri(s) => s,
        IdModel::Blank(s) => s,
        IdModel::Invalid(s) => s,
    }
}

/// A scalar as a JSON value.
pub open spec fn literal_json(l: LiteralModel) -> JsonView {
    match l {
        LiteralModel::Boolean(b) => JsonView::Boolean(b),
        LiteralModel::Number(n) => JsonView::Number(n),
        LiteralModel::Text(s) => JsonView::Text(s),
    }
}

/// The entry of `key` with `value`, where there is a value.
pub open spec fn entry_if(key: Seq<char>, value: Option<JsonView>) -> Seq<(Seq<char>, JsonView)> {
    match value {
        Some(v) => seq![(key, v)],
        None => Seq::empty(),
    }
}

/// A value written in full: an object with `@value`, and `@type`,
/// `@language`, `@direction` and `@index` where the value has them.
pub open spec fn value_object(active: ActiveContextModel, v: ValueModel, index: Option<Seq<char>>) -> Result<
    JsonView,
    ErrorCode,
> {
    let ty = match v.ty {
        Some(t) => match compact_iri(active, t, true, false, false) {
            Ok(c) => Ok(Some(JsonView::Text(c))),
            Err(e) => Err(e),
        },
        None => Ok(None),
    };
    match ty {
        Err(e) => Err(e),
        Ok(ty) => Ok(
            JsonView::Object(
                seq![(keyword_alias(active, "@value"@), literal_json(v.literal))] + entry_if(
                    keyword_alias(active, "@type"@),
                    ty,
                ) + entry_if(
                    keyword_alias(active, "@language"@),
                    match v.language {
                        Some(l) => Some(JsonView::Text(l)),
                        None => None,
                    },
                ) + entry_if(
                    keyword_alias(active, "@direction"@),
                    match v.direction {
                        Some(d) => Some(JsonView::Text(direction_keyword(d))),
                        None => None,
                    },
                ) + entry_if(
                    keyword_alias(active, "@index"@),
                    match index {
                        Some(i) => Some(JsonView::Text(i)),
                        None => None,
                    },
                ),
            ),
        ),
    }
}

/// The entries with `value` added under `key`: in an array with the values
/// that are there under `key` already; else alone, or, where `array` asks
/// for it, in an array of its own.
pub open spec fn with_value(
    entries: Seq<(Seq<char>, JsonView)>,
    key: Seq<char>,
    value: JsonView,
    array: bool,
) -> Seq<(Seq<char>, JsonView)> {
    match assoc_position(entries, key) {
        Some(i) => entries.update(
            i,
            (
                key,
                match entries[i].1 {
                    JsonView::Array(items) => JsonView::Array(items.push(value)),
                    other => JsonView::Array(seq![other, value]),
                },
            ),
        ),
        None => entries.push(
            (
                key,
                if array {
                    JsonView::Array(seq![value])
                } else {
                    value
                },
            ),
        ),
    }
}

/// Whether the values of `key` are always written in an array: the arrays
/// of one item are not to be compacted, or the term has a set or list container.
pub open spec fn as_array(active: ActiveContextModel, key: Seq<char>, opts: Options) -> bool {
    !opts.compact_arrays || (match active.get(key) {
        Some(d) => d.container.contains(ContainerKind::Unordered) || d.container.contains(ContainerKind::List),
        None => false,
    })
}

/// The objects of the first `k` items of a list, each compacted as a value of `key`.
pub open spec fn compact_list_items(
    active: ActiveContextModel,
    key: Seq<char>,
    items: Seq<IndexedObjectModel>,
    k: int,
    opts: Options,
) -> Result<Seq<JsonView>, ErrorCode>
    decreases items, k, 0int,
{
    if k <= 0 || k > items.len() {
        Ok(Seq::empty())
    } else {
        match compact_list_items(active, key, items, k - 1, opts) {
            Err(e) => Err(e),
            Ok(before) => match compact_object(active, key, items[k - 1], opts) {
                Err(e) => Err(e),
                Ok(j) => Ok(before.push(j)),
            },
        }
    }
}

/// An object compacted as a value of `key`: a value as a bare scalar
/// where the key gives it back as it is, else in full; a node that is
/// but a reference as a bare string where the key gives it back, else
/// as a node; a list as an object with `@list`.
pub open spec fn compact_object(
    active: ActiveContextModel,
    key: Seq<char>,
    o: IndexedObjectModel,
    opts: Options,
) -> Result<JsonView, ErrorCode>
    decreases o, 1int, 0int,
{
    compact_inner(active, key, o.inner, o.index, opts)
}

/// An object with the index `index`, compacted as a value of `key`.
pub open spec fn compact_inner(
    active: ActiveContextModel,
    key: Seq<char>,
    inner: ObjectModel,
    index: Option<Seq<char>>,
    opts: Options,
) -> Result<JsonView, ErrorCode>
    decreases inner, 1int, 0int,
{
    match inner {
        ObjectModel::Value(v) => if index is None && expand_scalar(active, key, v.literal) == inner {
            Ok(literal_json(v.literal))
        } else {
            value_object(active, v, index)
        },
        ObjectModel::Node(n) => if index is None && is_bare(n) && n.id is Some && expand_scalar(
            active,
            key,
            LiteralModel::Text(id_text(n.id->0)),
        ) == inner {
            Ok(JsonView::Text(id_text(n.id->0)))
        } else {
            compact_node(active, n, index, opts)
        },
        ObjectModel::List(items) => match compact_list_items(active, key, items, items.len() as int, opts) {
            Err(e) => Err(e),
            Ok(js) => Ok(
                JsonView::Object(
                    seq![(keyword_alias(active, "@list"@), JsonView::Array(js))] + entry_if(
                        keyword_alias(active, "@index"@),
                        match index {
                            Some(i) => Some(JsonView::Text(i)),
                            None => None,
                        },
                    ),
                ),
            ),
        },
    }
}

/// Whether a term with the definition `def` can hold the values of `iri`
/// in a map of the given kind, of languages or of indexes: it stands for
/// `iri`, not as a reverse property, has a container of that kind and
/// none that is read before it or changes what is read, and has no
/// context of its own.
pub open spec fn map_term_fits(def: TermDefinitionModel, iri: Seq<char>, kind: ContainerKind) -> bool {
    def.iri == Some(iri) && !def.reverse && def.container.contains(kind) && (kind != ContainerKind::Language
        ==> !def.container.contains(ContainerKind::Language)) && !def.container.contains(ContainerKind::List)
        && !def.container.contains(ContainerKind::Graph) && def.context is None
}

/// The term to take for a map of the values of `iri` among the first `k`
/// terms: of those that fit, the shortest, and among those the first in the order of the dictionary.
pub open spec fn best_map_term(
    terms: Seq<(Seq<char>, TermDefinitionModel)>,
    iri: Seq<char>,
    kind: ContainerKind,
    k: int,
) -> Option<Seq<char>>
    decreases k,
{
    if k <= 0 || k > terms.len() {
        None
    } else {
        let before = best_map_term(terms, iri, kind, k - 1);
        if map_term_fits(terms[k - 1].1, iri, kind) && (before is None || term_before(terms[k - 1].0, before->0)) {
            Some(terms[k - 1].0)
        } else {
            before
        }
    }
}

/// The term under which a value is written in a language map: the value
/// is a string with a language and nothing else, a term fits, and the
/// term gives strings the direction that the value has.
pub open spec fn language_key(active: ActiveContextModel, iri: Seq<char>, o: IndexedObjectModel) -> Option<Seq<char>> {
    match o.inner {
        ObjectModel::Value(v) => {
            let term = best_map_term(active.terms, iri, ContainerKind::Language, active.terms.len() as int);
            if o.index is None && v.literal is Text && v.ty is None && v.language is Some && map_tag(
                active,
                v.language->0,
            ) is Some && term is Some && v.direction == direction_of_property(active, active.get(term->0)) {
                term
            } else {
                None
            }
        },
        _ => None,
    }
}

/// The term under which an object is written in an index map: the object has an index, and a term fits.
pub open spec fn index_key(active: ActiveContextModel, iri: Seq<char>, o: IndexedObjectModel) -> Option<Seq<char>> {
    if o.index is Some && map_tag(active, o.index->0) is Some {
        best_map_term(active.terms, iri, ContainerKind::Index, active.terms.len() as int)
    } else {
        None
    }
}

/// The entries with `item` added under `tag` in the map that stands under
/// `key`, or in a new map under `key` where no map stands there.
pub open spec fn with_mapped(
    entries: Seq<(Seq<char>, JsonView)>,
    key: Seq<char>,
    tag: Seq<char>,
    item: JsonView,
) -> Seq<(Seq<char>, JsonView)> {
    match assoc_position(entries, key) {
        Some(i) => match entries[i].1 {
            JsonView::Object(map) => entries.update(i, (key, JsonView::Object(with_value(map, tag, item, false)))),
            _ => entries.push((key, JsonView::Object(seq![(tag, item)]))),
        },
        None => entries.push((key, JsonView::Object(seq![(tag, item)]))),
    }
}

/// What an object of the property `iri` adds to the entries `before`
/// where it is written in a map: a string with a language under its
/// language, in a language map; or an object with an index under its
/// index, without it, in an index map. None where it is not written in a map.
pub open spec fn mapped_step(
    active: ActiveContextModel,
    iri: Seq<char>,
    o: IndexedObjectModel,
    before: Seq<(Seq<char>, JsonView)>,
    opts: Options,
) -> Option<Result<Seq<(Seq<char>, JsonView)>, ErrorCode>>
    decreases o, 1int, 1int,
{
    if language_key(active, iri, o) is Some {
        Some(
            Ok(
                with_mapped(
                    before,
                    language_key(active, iri, o)->0,
                    o.inner->Value_0.language->0,
                    JsonView::Text(o.inner->Value_0.literal->Text_0),
                ),
            ),
        )
    } else if index_key(active, iri, o) is Some {
        Some(
            match compact_inner(active, index_key(active, iri, o)->0, o.inner, None, opts) {
                Err(e) => Err(e),
                Ok(j) => Ok(with_mapped(before, index_key(active, iri, o)->0, o.index->0, j)),
            },
        )
    } else {
        None
    }
}

/// The entries of a node with the first `k` objects of the property `iri` added.
pub open spec fn compact_property(
    active: ActiveContextModel,
    iri: Seq<char>,
    objects: Seq<IndexedObjectModel>,
    k: int,
    entries: Seq<(Seq<char>, JsonView)>,
    opts: Options,
) -> Result<Seq<(Seq<char>, JsonView)>, ErrorCode>
    decreases objects, k, 0int,
{
    if k <= 0 || k > objects.len() {
        Ok(entries)
    } else {
        match compact_property(active, iri, objects, k - 1, entries, opts) {
            Err(e) => Err(e),
            Ok(before) => {
                let o = objects[k - 1];
                let list_key = if o.inner is List && o.index is None {
                    best_term(active.terms, iri, true, false, active.terms.len() as int)
                } else {
                    None
                };
                if list_key is Some {
                    if assoc_position(before, list_key->0) is Some {
                        Err(ErrorCode::CompactionToListOfLists)
                    } else {
                        match compact_list_items(
                            active,
                            list_key->0,
                            o.inner->List_0,
                            o.inner->List_0.len() as int,
                            opts,
                        ) {
                            Err(e) => Err(e),
                            Ok(js) => Ok(before.push((list_key->0, JsonView::Array(js)))),
                        }
                    }
                } else {
                    match mapped_step(active, iri, o, before, opts) {
                        Some(r) => r,
                        None => match compact_iri(active, iri, true, false, false) {
                            Err(e) => Err(e),
                            Ok(key) => match compact_object(active, key, o, opts) {
                                Err(e) => Err(e),
                                Ok(j) => Ok(with_value(before, key, j, as_array(active, key, opts))),
                            },
                        },
                    }
                }
            },
        }
    }
}

/// The entries of a node with its first `k` properties added.
pub open spec fn compact_properties(
    active: ActiveContextModel,
    properties: Seq<(IdModel, Seq<IndexedObjectModel>)>,
    k: int,
    entries: Seq<(Seq<char>, JsonView)>,
    opts: Options,
) -> Result<Seq<(Seq<char>, JsonView)>, ErrorCode>
    decreases properties, k, 0int,
{
    if k <= 0 || k > properties.len() {
        Ok(entries)
    } else {
        match compact_properties(active, properties, k - 1, entries, opts) {
            Err(e) => Err(e),
            Ok(before) => compact_property(
                active,
                id_text(properties[k - 1].0),
                properties[k - 1].1,
                properties[k - 1].1.len() as int,
                before,
                opts,
            ),
        }
    }
}

/// The first `k` nodes, each compacted.
pub open spec fn compact_nodes(active: ActiveContextModel, nodes: Seq<IndexedNodeModel>, k: int, opts: Options) -> Result<
    Seq<JsonView>,
    ErrorCode,
>
    decreases nodes, k, 0int,
{
    if k <= 0 || k > nodes.len() {
        Ok(Seq::empty())
    } else {
        match compact_nodes(active, nodes, k - 1, opts) {
            Err(e) => Err(e),
            Ok(before) => match compact_node(active, nodes[k - 1].inner, nodes[k - 1].index, opts) {
                Err(e) => Err(e),
                Ok(j) => Ok(before.push(j)),
            },
        }
    }
}

/// The entries of a node with its first `k` reverse properties added: under
/// a term that is the reverse property, or else within `inside`, the
/// entries of the `@reverse` object.
pub open spec fn compact_reverse(
    active: ActiveContextModel,
    properties: Seq<(IdModel, Seq<IndexedNodeModel>)>,
    k: int,
    entries: Seq<(Seq<char>, JsonView)>,
    inside: Seq<(Seq<char>, JsonView)>,
    opts: Options,
) -> Result<(Seq<(Seq<char>, JsonView)>, Seq<(Seq<char>, JsonView)>), ErrorCode>
    decreases properties, k, 0int,
{
    if k <= 0 || k > properties.len() {
        Ok((entries, inside))
    } else {
        match compact_reverse(active, properties, k - 1, entries, inside, opts) {
            Err(e) => Err(e),
            Ok((es, ins)) => {
                let iri = id_text(properties[k - 1].0);
                match compact_nodes(active, properties[k - 1].1, properties[k - 1].1.len() as int, opts) {
                    Err(e) => Err(e),
                    Ok(js) => match best_term(active.terms, iri, false, true, active.terms.len() as int) {
                        Some(t) => Ok((es.push((t, JsonView::Array(js))), ins)),
                        None => match compact_iri(active, iri, true, false, false) {
                            Err(e) => Err(e),
                            Ok(key) => Ok((es, ins.push((key, JsonView::Array(js))))),
                        },
                    },
                }
            },
        }
    }
}

/// The first `k` identifiers as types, each compacted.
pub open spec fn compact_types(active: ActiveContextModel, types: Seq<IdModel>, k: int) -> Result<
    Seq<JsonView>,
    ErrorCode,
>
    decreases k,
{
    if k <= 0 || k > types.len() {
        Ok(Seq::empty())
    } else {
        match compact_types(active, types, k - 1) {
            Err(e) => Err(e),
            Ok(before) => match compact_iri(active, id_text(types[k - 1]), true, false, false) {
                Err(e) => Err(e),
                Ok(c) => Ok(before.push(JsonView::Text(c))),
            },
        }
    }
}

/// An array, or its one item where arrays of one item are to be compacted.
pub open spec fn compacted_array(items: Seq<JsonView>, opts: Options) -> JsonView {
    if items.len() == 1 && opts.compact_arrays {
        items[0]
    } else {
        JsonView::Array(items)
    }
}

/// The first `k` objects, each compacted as it stands free, under no property.
pub open spec fn compact_objects(
    active: ActiveContextModel,
    objects: Seq<IndexedObjectModel>,
    k: int,
    opts: Options,
) -> Result<Seq<JsonView>, ErrorCode>
    decreases objects, k, 0int,
{
    if k <= 0 || k > objects.len() {
        Ok(Seq::empty())
    } else {
        match compact_objects(active, objects, k - 1, opts) {
            Err(e) => Err(e),
            Ok(before) => match compact_object(active, "@graph"@, objects[k - 1], opts) {
                Err(e) => Err(e),
                Ok(j) => Ok(before.push(j)),
            },
        }
    }
}

/// A node compacted: an object with its identifier, its types, its
/// index, its properties, its reverse properties, the nodes that
/// it includes and its graph, in this order.
pub open spec fn compact_node(
    active: ActiveContextModel,
    n: NodeModel,
    index: Option<Seq<char>>,
    opts: Options,
) -> Result<JsonView, ErrorCode>
    decreases n, 0int, 0int,
{
    let id = match n.id {
        Some(id) => match compact_iri(active, id_text(id), false, false, false) {
            Ok(c) => Ok(Some(JsonView::Text(c))),
            Err(e) => Err(e),
        },
        None => Ok(None),
    };
    let types = match n.types {
        Some(ts) => match compact_types(active, ts, ts.len() as int) {
            Ok(js) => Ok(Some(compacted_array(js, opts))),
            Err(e) => Err(e),
        },
        None => Ok(None),
    };
    if id is Err {
        Err(id->Err_0)
    } else if types is Err {
        Err(types->Err_0)
    } else {
        let head = entry_if(keyword_alias(active, "@id"@), id->Ok_0) + entry_if(
            keyword_alias(active, "@type"@),
            types->Ok_0,
        ) + entry_if(
            keyword_alias(active, "@index"@),
            match index {
                Some(i) => Some(JsonView::Text(i)),
                None => None,
            },
        );
        match compact_properties(active, n.properties, n.properties.len() as int, head, opts) {
            Err(e) => Err(e),
            Ok(with_properties) => {
                let reversed = match n.reverse_properties {
                    Some(r) => compact_reverse(active, r, r.len() as int, with_properties, Seq::empty(), opts),
                    None => Ok((with_properties, Seq::empty())),
                };
                match reversed {
                    Err(e) => Err(e),
                    Ok((es, inside)) => {
                        let with_reverse = if inside.len() > 0 {
                            es.push((keyword_alias(active, "@reverse"@), JsonView::Object(inside)))
                        } else {
                            es
                        };
                        let included = match n.included {
                            Some(ns) => match compact_nodes(active, ns, ns.len() as int, opts) {
                                Ok(js) => Ok(Some(JsonView::Array(js))),
                                Err(e) => Err(e),
                            },
                            None => Ok(None),
                        };
                        match included {
                            Err(e) => Err(e),
                            Ok(inc) => {
                                let graph = match n.graph {
                                    Some(g) => match compact_objects(active, g, g.len() as int, opts) {
                                        Ok(js) => Ok(Some(JsonView::Array(js))),
                                        Err(e) => Err(e),
                                    },
                                    None => Ok(None),
                                };
                                match graph {
                                    Err(e) => Err(e),
                                    Ok(g) => Ok(
                                        JsonView::Object(
                                            with_reverse + entry_if(keyword_alias(active, "@included"@), inc)
                                                + entry_if(keyword_alias(active, "@graph"@), g),
                                        ),
                                    ),
                                }
                            },
                        }
                    },
                }
            },
        }
    }
}

/// The objects of a document compacted: the one object where there is but
/// one and arrays of one item are to be compacted, else the array of the objects.
pub open spec fn compact_document(active: ActiveContextModel, objects: Seq<IndexedObjectModel>, opts: Options) -> Result<
    JsonView,
    ErrorCode,
> {
    match compact_objects(active, objects, objects.len() as int, opts) {
        Err(e) => Err(e),
        Ok(js) => Ok(compacted_array(js, opts)),
    }
}

/// What has been compacted, made a document: an array becomes the graph
/// of an object, or the object without entries where it is empty; and the
/// context is put in at the end, unless it is empty: `null`, or an array
/// or an object that holds nothing.
pub open spec fn wrapped(active: ActiveContextModel, compacted: JsonView, context: JsonView) -> JsonView {
    let entries = match compacted {
        JsonView::Array(items) => if items.len() == 0 {
            Seq::empty()
        } else {
            seq![(keyword_alias(active, "@graph"@), JsonView::Array(items))]
        },
        JsonView::Object(entries) => entries,
        other => seq![(keyword_alias(active, "@graph"@), JsonView::Array(seq![other]))],
    };
    let empty_context = match context {
        JsonView::Null => true,
        JsonView::Array(items) => items.len() == 0,
        JsonView::Object(es) => es.len() == 0,
        _ => false,
    };
    if !empty_context {
        JsonView::Object(entries.push(("@context"@, context)))
    } else {
        JsonView::Object(entries)
    }
}

} // verus!
