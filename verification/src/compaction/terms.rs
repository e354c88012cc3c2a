//! The choice of terms and compact IRIs.

use vstd::prelude::*;
use vstd::string::*;

use crate::compaction::model::{
    best_compact_iri, best_map_term, best_term, compact_iri, compact_iri_with, confused_with_prefix,
    keyword_alias, map_term_fits, term_before, term_fits, text_before, vocab_suffix,
};
use crate::context::{ActiveContext, TermDefinition};
use crate::error::ErrorCode;
use crate::object::value::text_of;
use crate::syntax::context::ContainerKind;
use crate::text::{concat, find_char, find_char_from, starts_with, text_eq};

verus! {

/// Whether the term `a` is to be taken rather than `b`.
pub fn check_term_before(a: &str, b: &str) -> (r: bool)
    ensures
        r == term_before(a@, b@),
{
    let n = a.unicode_len();
    let m = b.unicode_len();
    if n != m {
        return n < m;
    }
    let mut k: usize = 0;
    while k < n
        invariant
            k <= n,
            n == a@.len(),
            m == b@.len(),
            n == m,
            text_before(a@, b@, k as int) == text_before(a@, b@, 0),
        decreases n - k,
    {
        let x = a.get_char(k) as u32;
        let y = b.get_char(k) as u32;
        if x < y {
            return true;
        }
        if x > y {
            return false;
        }
        k = k + 1;
    }
    false
}

/// Whether a term with the definition `def` can stand for `iri`.
pub fn check_term_fits(def: &TermDefinition, iri: &str, list: bool, reverse: bool) -> (r: bool)
    ensures
        r == term_fits(def@, iri@, list, reverse),
{
    let same = match &def.iri {
        Some(i) => text_eq(i.as_str(), iri),
        None => false,
    };
    let map = def.has_container(ContainerKind::Language) || def.has_container(ContainerKind::Index)
        || def.has_container(ContainerKind::Id) || def.has_container(ContainerKind::Type) || def.has_container(
        ContainerKind::Graph,
    );
    same && def.reverse == reverse && def.has_container(ContainerKind::List) == list && !map && def.context.is_none()
}

/// The place of the term to take for `iri`.
pub fn find_best_term(active: &ActiveContext, iri: &str, list: bool, reverse: bool) -> (r: Option<usize>)
    ensures
        match r {
            Some(i) => i < active.terms.len() && best_term(
                active@.terms,
                iri@,
                list,
                reverse,
                active@.terms.len() as int,
            ) == Some(active.terms@[i as int].0@),
            None => best_term(active@.terms, iri@, list, reverse, active@.terms.len() as int) is None,
        },
{
    let ghost terms = active@.terms;
    let mut best: Option<usize> = None;
    let mut k: usize = 0;
    while k < active.terms.len()
        invariant
            k <= active.terms.len(),
            terms == active@.terms,
            terms.len() == active.terms.len(),
            match best {
                Some(i) => i < k && best_term(terms, iri@, list, reverse, k as int) == Some(
                    active.terms@[i as int].0@,
                ),
                None => best_term(terms, iri@, list, reverse, k as int) is None,
            },
        decreases active.terms.len() - k,
    {
        assert(terms[k as int] == (active.terms@[k as int].0@, active.terms@[k as int].1@));
        if check_term_fits(&active.terms[k].1, iri, list, reverse) {
            let better = match best {
                Some(i) => check_term_before(active.terms[k].0.as_str(), active.terms[i].0.as_str()),
                None => true,
            };
            if better {
                best = Some(k);
            }
        }
        k = k + 1;
    }
    best
}

/// Whether a term with the definition `def` can hold the values of `iri` in a map of the given kind.
pub fn check_map_term_fits(def: &TermDefinition, iri: &str, kind: ContainerKind) -> (r: bool)
    ensures
        r == map_term_fits(def@, iri@, kind),
{
    let same = match &def.iri {
        Some(i) => text_eq(i.as_str(), iri),
        None => false,
    };
    let first = kind == ContainerKind::Language || !def.has_container(ContainerKind::Language);
    same && !def.reverse && def.has_container(kind) && first && !def.has_container(ContainerKind::List)
        && !def.has_container(ContainerKind::Graph) && def.context.is_none()
}

/// The term to take for a map of the values of `iri`.
pub fn best_map_term_exec(active: &ActiveContext, iri: &str, kind: ContainerKind) -> (r: Option<String>)
    ensures
        text_of(r) == best_map_term(active@.terms, iri@, kind, active@.terms.len() as int),
{
    let ghost terms = active@.terms;
    let mut best: Option<usize> = None;
    let mut k: usize = 0;
    while k < active.terms.len()
        invariant
            k <= active.terms.len(),
            terms == active@.terms,
            terms.len() == active.terms.len(),
            match best {
                Some(i) => i < k && best_map_term(terms, iri@, kind, k as int) == Some(active.terms@[i as int].0@),
                None => best_map_term(terms, iri@, kind, k as int) is None,
            },
        decreases active.terms.len() - k,
    {
        assert(terms[k as int] == (active.terms@[k as int].0@, active.terms@[k as int].1@));
        if check_map_term_fits(&active.terms[k].1, iri, kind) {
            let better = match best {
                Some(i) => check_term_before(active.terms[k].0.as_str(), active.terms[i].0.as_str()),
                None => true,
            };
            if better {
                best = Some(k);
            }
        }
        k = k + 1;
    }
    match best {
        Some(i) => Some(active.terms[i].0.clone()),
        None => None,
    }
}

/// The term to take for `iri`.
pub fn best_term_exec(active: &ActiveContext, iri: &str, list: bool, reverse: bool) -> (r: Option<String>)
    ensures
        text_of(r) == best_term(active@.terms, iri@, list, reverse, active@.terms.len() as int),
{
    match find_best_term(active, iri, list, reverse) {
        Some(i) => Some(active.terms[i].0.clone()),
        None => None,
    }
}

/// The way to write a keyword.
pub fn keyword_alias_exec(active: &ActiveContext, keyword: &str) -> (r: String)
    ensures
        r@ == keyword_alias(active@, keyword@),
{
    match best_term_exec(active, keyword, false, false) {
        Some(t) => t,
        None => keyword.to_owned(),
    }
}

/// The compact IRI that a term gives for `iri`, if it gives one.
fn compact_iri_with_exec(active: &ActiveContext, term: &str, def: &TermDefinition, iri: &str) -> (r: Option<String>)
    ensures
        text_of(r) == compact_iri_with(active@, term@, def@, iri@),
{
    if !def.prefix {
        return None;
    }
    match &def.iri {
        Some(p) => {
            let n = iri.unicode_len();
            let m = p.as_str().unicode_len();
            if starts_with(iri, p.as_str()) && n > m {
                let mut candidate = concat(term, ":");
                candidate.append(iri.substring_char(m, n));
                if active.get(candidate.as_str()).is_none() {
                    Some(candidate)
                } else {
                    None
                }
            } else {
                None
            }
        },
        None => None,
    }
}

/// The compact IRI to take for `iri`.
pub fn best_compact_iri_exec(active: &ActiveContext, iri: &str) -> (r: Option<String>)
    ensures
        text_of(r) == best_compact_iri(active@, iri@, active@.terms.len() as int),
{
    let mut best: Option<String> = None;
    let mut k: usize = 0;
    while k < active.terms.len()
        invariant
            k <= active.terms.len(),
            active@.terms.len() == active.terms.len(),
            text_of(best) == best_compact_iri(active@, iri@, k as int),
        decreases active.terms.len() - k,
    {
        assert(active@.terms[k as int] == (active.terms@[k as int].0@, active.terms@[k as int].1@));
        let candidate = compact_iri_with_exec(active, active.terms[k].0.as_str(), &active.terms[k].1, iri);
        match candidate {
            Some(c) => {
                let better = match &best {
                    Some(b) => check_term_before(c.as_str(), b.as_str()),
                    None => true,
                };
                if better {
                    best = Some(c);
                }
            },
            None => {},
        }
        k = k + 1;
    }
    best
}

/// What stands after the vocabulary mapping in `iri`.
fn vocab_suffix_exec<'a>(active: &ActiveContext, iri: &'a str) -> (r: Option<&'a str>)
    ensures
        match r {
            Some(s) => vocab_suffix(active@, iri@) == Some(s@),
            None => vocab_suffix(active@, iri@) is None,
        },
{
    match &active.vocab {
        Some(v) => {
            let n = iri.unicode_len();
            let m = v.as_str().unicode_len();
            if starts_with(iri, v.as_str()) && n > m {
                let suffix = iri.substring_char(m, n);
                if active.get(suffix).is_none() && find_char(suffix, ':').is_none() {
                    Some(suffix)
                } else {
                    None
                }
            } else {
                None
            }
        },
        None => None,
    }
}

/// Whether `iri` would be read as a compact IRI.
fn check_confused_with_prefix(active: &ActiveContext, iri: &str) -> (r: bool)
    ensures
        r == confused_with_prefix(active@, iri@),
{
    match find_char_from(iri, ':', 1) {
        Some(i) => {
            let n = iri.unicode_len();
            let prefix = match active.get(iri.substring_char(0, i)) {
                Some(d) => d.prefix,
                None => false,
            };
            prefix && !starts_with(iri.substring_char(i + 1, n), "//")
        },
        None => false,
    }
}

/// The shortest way to write `iri`.
pub fn compact_iri_exec(active: &ActiveContext, iri: &str, vocab: bool, list: bool, reverse: bool) -> (r: Result<
    String,
    ErrorCode,
>)
    ensures
        match r {
            Ok(c) => compact_iri(active@, iri@, vocab, list, reverse) == Ok::<Seq<char>, ErrorCode>(c@),
            Err(e) => compact_iri(active@, iri@, vocab, list, reverse) == Err::<Seq<char>, ErrorCode>(e),
        },
{
    if vocab {
        if let Some(t) = best_term_exec(active, iri, list, reverse) {
            return Ok(t);
        }
        if let Some(s) = vocab_suffix_exec(active, iri) {
            return Ok(s.to_owned());
        }
    }
    if let Some(c) = best_compact_iri_exec(active, iri) {
        return Ok(c);
    }
    if check_confused_with_prefix(active, iri) {
        return Err(ErrorCode::IriConfusedWithPrefix);
    }
    Ok(iri.to_owned())
}

} // verus!
