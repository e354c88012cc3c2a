//! Sound identifiers, and how they are written and read in the context without terms.

use vstd::prelude::*;

use crate::assoc::lemma_assoc_position_none;
use crate::compaction::model::{
    best_compact_iri,
    best_term,
    compact_iri,
    confused_with_prefix,
    id_text,
    vocab_suffix,
};
use crate::context::{expand_compact, expand_iri, ActiveContextModel};
use crate::error::ErrorCode;
use crate::expansion::model::{id_of, reference_of};
use crate::iri::{blank_id_syntax, iri_syntax};
use crate::object::model::IdModel;
use crate::text::{has_keyword_form, is_ascii_letter, is_first_at, is_keyword, lemma_position_from, position, position_from};

verus! {

/// Whether `s` is an IRI as every IRI is: it begins with a letter, and a colon ends its scheme.
pub open spec fn is_absolute(s: Seq<char>) -> bool {
    iri_syntax(s) && s.len() > 0 && is_ascii_letter(s[0]) && position_from(s, ':', 1) is Some
}

/// Whether `s` is a blank node label as every label is: it begins with `_:`, and is no IRI.
pub open spec fn is_label(s: Seq<char>) -> bool {
    blank_id_syntax(s) && !iri_syntax(s) && s.len() >= 2 && s[0] == '_' && s[1] == ':'
}

/// Whether an identifier is sound: an IRI or a blank node label.
pub open spec fn sound_id(id: IdModel) -> bool {
    match id {
        IdModel::Iri(s) => is_absolute(s),
        IdModel::Blank(s) => is_label(s),
        IdModel::Invalid(_) => false,
    }
}

/// Whether `s` is the text of a sound identifier.
pub open spec fn sound_name(s: Seq<char>) -> bool {
    is_absolute(s) || is_label(s)
}

/// Where `s` holds `c` at or after `from`, there is a first such position.
pub proof fn lemma_position_exists(s: Seq<char>, c: char, from: int, i: int)
    requires
        0 <= from <= i < s.len(),
        s[i] == c,
    ensures
        position_from(s, c, from) is Some,
    decreases i - from,
{
    if forall|j: int| from <= j < i ==> s[j] != c {
        assert(is_first_at(s, c, from, i));
    } else {
        let j = choose|j: int| from <= j < i && s[j] == c;
        lemma_position_exists(s, c, from, j);
    }
}

/// How the keywords that stand in documents begin, and how long they are.
pub proof fn lemma_keyword_texts()
    ensures
        "@id"@.len() == 3 && "@id"@[1] == 'i',
        "@type"@.len() == 5 && "@type"@[1] == 't' && "@type"@[2] == 'y',
        "@index"@.len() == 6 && "@index"@[1] == 'i',
        "@graph"@.len() == 6 && "@graph"@[1] == 'g',
        "@value"@.len() == 6 && "@value"@[1] == 'v',
        "@list"@.len() == 5 && "@list"@[1] == 'l' && "@list"@[2] == 'i',
        "@set"@.len() == 4 && "@set"@[1] == 's',
        "@reverse"@.len() == 8 && "@reverse"@[1] == 'r',
        "@included"@.len() == 9 && "@included"@[1] == 'i',
        "@context"@.len() == 8 && "@context"@[1] == 'c',
        "@language"@.len() == 9 && "@language"@[1] == 'l',
        "@direction"@.len() == 10 && "@direction"@[1] == 'd',
        "@none"@.len() == 5 && "@none"@[2] == 'o',
        "@vocab"@.len() == 6 && "@vocab"@[1] == 'v',
        "@nest"@.len() == 5 && "@nest"@[2] == 'e',
        "ltr"@.len() == 3 && "ltr"@[0] == 'l',
        "rtl"@.len() == 3 && "rtl"@[0] == 'r',
        "_"@.len() == 1 && "_"@[0] == '_',
{
    reveal_strlit("@id");
    reveal_strlit("@type");
    reveal_strlit("@index");
    reveal_strlit("@graph");
    reveal_strlit("@value");
    reveal_strlit("@list");
    reveal_strlit("@set");
    reveal_strlit("@reverse");
    reveal_strlit("@included");
    reveal_strlit("@context");
    reveal_strlit("@language");
    reveal_strlit("@direction");
    reveal_strlit("@none");
    reveal_strlit("@vocab");
    reveal_strlit("@nest");
    reveal_strlit("ltr");
    reveal_strlit("rtl");
    reveal_strlit("_");
}

/// Every keyword begins with `@`.
pub proof fn lemma_keyword_begins(s: Seq<char>)
    requires
        is_keyword(s),
    ensures
        s.len() >= 2,
        s[0] == '@',
{
    reveal_strlit("@base");
    reveal_strlit("@container");
    reveal_strlit("@context");
    reveal_strlit("@direction");
    reveal_strlit("@graph");
    reveal_strlit("@id");
    reveal_strlit("@import");
    reveal_strlit("@included");
    reveal_strlit("@index");
    reveal_strlit("@json");
    reveal_strlit("@language");
    reveal_strlit("@list");
    reveal_strlit("@nest");
    reveal_strlit("@none");
    reveal_strlit("@prefix");
    reveal_strlit("@propagate");
    reveal_strlit("@protected");
    reveal_strlit("@reverse");
    reveal_strlit("@set");
    reveal_strlit("@type");
    reveal_strlit("@value");
    reveal_strlit("@version");
    reveal_strlit("@vocab");
}

/// The context without terms has no term.
pub proof fn lemma_no_term(base: Option<Seq<char>>, term: Seq<char>)
    ensures
        ActiveContextModel::empty(base).get(term) is None,
{
    lemma_assoc_position_none(ActiveContextModel::empty(base).terms, term);
}

/// The text of a sound identifier is no keyword, has a colon, and in the
/// context without terms it is written as it is and read as it is.
pub proof fn lemma_sound_name(base: Option<Seq<char>>, s: Seq<char>, relative: bool, vocab: bool)
    requires
        sound_name(s),
    ensures
        !is_keyword(s),
        !has_keyword_form(s),
        position(s, ':') is Some,
        expand_iri(ActiveContextModel::empty(base), s, relative, vocab) == Some(s),
        compact_iri(ActiveContextModel::empty(base), s, vocab, false, false) == Ok::<Seq<char>, ErrorCode>(s),
        is_absolute(s) ==> id_of(s) == IdModel::Iri(s),
        is_label(s) ==> id_of(s) == IdModel::Blank(s),
{
    let active = ActiveContextModel::empty(base);
    lemma_keyword_texts();
    if is_keyword(s) {
        lemma_keyword_begins(s);
    }
    if is_label(s) {
        assert(is_first_at(s, ':', 1, 1));
        lemma_position_from(s, ':', 1, 1);
        assert(s.subrange(0, 1) =~= "_"@);
    }
    let i = position_from(s, ':', 1)->0;
    assert(is_first_at(s, ':', 1, i));
    lemma_position_exists(s, ':', 0, i);
    lemma_no_term(base, s);
    lemma_no_term(base, s.subrange(0, i));
    assert(expand_compact(active, s, relative, vocab) == s);
    assert(best_term(active.terms, s, false, false, 0) is None);
    assert(best_compact_iri(active, s, 0) is None);
    assert(vocab_suffix(active, s) is None);
    assert(!confused_with_prefix(active, s));
}

/// In the context without terms a sound identifier is read back from its text.
pub proof fn lemma_sound_id(base: Option<Seq<char>>, id: IdModel, vocab: bool)
    requires
        sound_id(id),
    ensures
        sound_name(id_text(id)),
        reference_of(ActiveContextModel::empty(base), id_text(id), vocab) == id,
{
    lemma_sound_name(base, id_text(id), true, vocab);
}

} // verus!
