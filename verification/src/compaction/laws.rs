//! What holds of compaction together with expansion.

use vstd::prelude::*;

use crate::assoc::{assoc_position, lemma_assoc_position, lemma_assoc_position_none};
use crate::compaction::model::{
    best_term, compact_list_items, compact_properties, compact_property, id_text, term_fits, Options,
};
use crate::context::{ActiveContextModel, TermDefinitionModel};
use crate::expansion::model::{holds_graphs, expand_mapped, 
    as_list, context_of_term, expand_element, expand_property, id_of, is_list_property, property_position,
    with_objects, NodeState,
};
use crate::json::JsonView;
use crate::object::model::{empty_node, IdModel, IndexedObjectModel};
use crate::processing::model::Env;

verus! {

/// The best term is one of the terms that fit; there is one whenever some term fits.
pub proof fn lemma_best_term(
    terms: Seq<(Seq<char>, TermDefinitionModel)>,
    iri: Seq<char>,
    list: bool,
    reverse: bool,
    k: int,
)
    requires
        0 <= k <= terms.len(),
    ensures
        match best_term(terms, iri, list, reverse, k) {
            Some(t) => exists|i: int| 0 <= i < k && (#[trigger] terms[i]).0 == t && term_fits(terms[i].1, iri, list, reverse),
            None => forall|i: int| 0 <= i < k ==> !term_fits((#[trigger] terms[i]).1, iri, list, reverse),
        },
    decreases k,
{
    if k > 0 {
        lemma_best_term(terms, iri, list, reverse, k - 1);
        let before = best_term(terms, iri, list, reverse, k - 1);
        match best_term(terms, iri, list, reverse, k) {
            Some(t) => {
                if best_term(terms, iri, list, reverse, k) == before {
                    let i = choose|i: int| 0 <= i < k - 1 && (#[trigger] terms[i]).0 == t && term_fits(terms[i].1, iri, list, reverse);
                    assert(0 <= i < k && terms[i].0 == t && term_fits(terms[i].1, iri, list, reverse));
                } else {
                    assert(terms[k - 1].0 == t && term_fits(terms[k - 1].1, iri, list, reverse));
                }
            },
            None => {},
        }
    }
}

/// A term with a list container is taken the same way in both directions.
///
/// Where `key` is a term of `active` that stands for `iri`, with a list
/// container and none for languages or indexes, no context of its own, and
/// not as a reverse property, what
/// expansion makes of an entry of `key` in a node without properties is
/// the one property `iri` with one object, a list. And where that list has
/// no index, compaction in the same context writes that property as one
/// entry: its key is a term that fits `iri` with a list container, and its
/// value is the array of the compacted items of the list, with no `@list`
/// around it.
pub proof fn lemma_list_container_symmetry(
    active: ActiveContextModel,
    key: Seq<char>,
    iri: Seq<char>,
    value: JsonView,
    index: Option<Seq<char>>,
    env: Env,
    opts: Options,
)
    requires
        active.get(key) is Some,
        term_fits(active.get(key)->0, iri, true, false),
        expand_property(active, key, iri, value, NodeState { node: empty_node(), index }, false, env) is Ok,
    ensures
        ({
            let st = expand_property(
                active,
                key,
                iri,
                value,
                NodeState { node: empty_node(), index },
                false,
                env,
            )->Ok_0;
            let properties = st.node.properties;
            &&& properties.len() == 1
            &&& properties[0].0 == id_of(iri)
            &&& properties[0].1.len() == 1
            &&& properties[0].1[0].inner is List
            &&& properties[0].1[0].index is None ==> {
                let items = properties[0].1[0].inner->List_0;
                let term = best_term(active.terms, iri, true, false, active.terms.len() as int);
                &&& term is Some
                &&& exists|i: int|
                    0 <= i < active.terms.len() && (#[trigger] active.terms[i]).0 == term->0 && term_fits(
                        active.terms[i].1,
                        iri,
                        true,
                        false,
                    )
                &&& match compact_properties(active, properties, 1, Seq::empty(), opts) {
                    Ok(entries) => compact_list_items(active, term->0, items, items.len() as int, opts) is Ok
                        && entries == seq![
                        (term->0, JsonView::Array(compact_list_items(active, term->0, items, items.len() as int, opts)->Ok_0)),
                    ],
                    Err(e) => compact_list_items(active, term->0, items, items.len() as int, opts) == Err::<
                        Seq<JsonView>,
                        _,
                    >(e),
                }
            }
        }),
{
    let st0 = NodeState { node: empty_node(), index };
    let def = active.get(key);
    let within = context_of_term(active, def, env)->Ok_0;
    assert(expand_mapped(active, within, key, value, env) == expand_element(within, Some(key), value, env));
    assert(!holds_graphs(active.get(key)));
    let objects = as_list(expand_element(within, Some(key), value, env)->Ok_0, value is Array);
    assert(is_list_property(active, Some(key)));
    assert(objects.len() == 1 && objects[0].inner is List);
    let none: Seq<(IdModel, Seq<IndexedObjectModel>)> = Seq::empty();
    assert(property_position(none, id_of(iri), 0) is None);
    let st = expand_property(active, key, iri, value, st0, false, env)->Ok_0;
    let properties = st.node.properties;
    assert(properties == with_objects(none, id_of(iri), objects));
    assert(properties == seq![(id_of(iri), objects)]);
    if objects[0].index is None {
        let n = active.terms.len() as int;
        lemma_assoc_position(active.terms, key);
        let p = assoc_position(active.terms, key)->0;
        assert(term_fits(active.terms[p].1, iri, true, false));
        lemma_best_term(active.terms, iri, true, false, n);
        let term = best_term(active.terms, iri, true, false, n);
        assert(term is Some);
        let empty: Seq<(Seq<char>, JsonView)> = Seq::empty();
        assert(compact_properties(active, properties, 0, empty, opts) == Ok::<_, crate::error::ErrorCode>(empty));
        assert(id_text(properties[0].0) == iri);
        assert(compact_properties(active, properties, 1, empty, opts) == compact_property(
            active,
            iri,
            objects,
            1,
            empty,
            opts,
        ));
        assert(compact_property(active, iri, objects, 0, empty, opts) == Ok::<_, crate::error::ErrorCode>(empty));
        lemma_assoc_position_none(empty, term->0);
        match compact_property(active, iri, objects, 1, empty, opts) {
            Ok(entries) => {
                let js = compact_list_items(active, term->0, objects[0].inner->List_0, objects[0].inner->List_0.len() as int, opts)->Ok_0;
                assert(entries == empty.push((term->0, JsonView::Array(js))));
                assert(entries == seq![(term->0, JsonView::Array(js))]);
            },
            Err(e) => {},
        }
    }
}

} // verus!
