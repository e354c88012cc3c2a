//! Questions about the text of strings.

use vstd::prelude::*;
use vstd::string::*;
use vstd::utf8::*;

verus! {

/// `i` is the first position at or after `from` where `s` holds `c`.
pub open spec fn is_first_at(s: Seq<char>, c: char, from: int, i: int) -> bool {
    &&& 0 <= from <= i < s.len()
    &&& s[i] == c
    &&& forall|j: int| from <= j < i ==> s[j] != c
}

/// The first position at or after `from` where `s` holds `c`, if there is one.
pub open spec fn position_from(s: Seq<char>, c: char, from: int) -> Option<int> {
    if exists|i: int| is_first_at(s, c, from, i) {
        Some(choose|i: int| is_first_at(s, c, from, i))
    } else {
        None
    }
}

/// The first position where `s` holds `c`, if there is one.
pub open spec fn position(s: Seq<char>, c: char) -> Option<int> {
    position_from(s, c, 0)
}

/// The first position that qualifies is the one that `position_from` gives.
pub proof fn lemma_position_from(s: Seq<char>, c: char, from: int, i: int)
    requires
        is_first_at(s, c, from, i),
    ensures
        position_from(s, c, from) == Some(i),
{
    let k = choose|k: int| is_first_at(s, c, from, k);
    assert(is_first_at(s, c, from, k));
    assert(k == i);
}

/// Looks for the first position at or after `from` where `s` holds `c`.
pub fn find_char_from(s: &str, c: char, from: usize) -> (r: Option<usize>)
    ensures
        match r {
            Some(i) => position_from(s@, c, from as int) == Some(i as int) && from <= i < s@.len(),
            None => position_from(s@, c, from as int) is None,
        },
{
    let n = s.unicode_len();
    if from > n {
        return None;
    }
    let mut i: usize = from;
    while i < n
        invariant
            n == s@.len(),
            from <= i <= n,
            forall|j: int| from <= j < i ==> s@[j] != c,
        decreases n - i,
    {
        if s.get_char(i) == c {
            proof {
                lemma_position_from(s@, c, from as int, i as int);
            }
            return Some(i);
        }
        i = i + 1;
    }
    None
}

/// Looks for the first position where `s` holds `c`.
pub fn find_char(s: &str, c: char) -> (r: Option<usize>)
    ensures
        match r {
            Some(i) => position(s@, c) == Some(i as int) && i < s@.len(),
            None => position(s@, c) is None,
        },
{
    find_char_from(s, c, 0)
}

/// Whether two strings hold the same text.
pub fn text_eq(a: &str, b: &str) -> (r: bool)
    ensures
        r == (a@ == b@),
{
    let x = a.as_bytes();
    let y = b.as_bytes();
    proof {
        encode_utf8_decode_utf8(a@);
        encode_utf8_decode_utf8(b@);
    }
    if x.len() != y.len() {
        return false;
    }
    let mut i: usize = 0;
    while i < x.len()
        invariant
            i <= x.len(),
            x.len() == y.len(),
            x@ == encode_utf8(a@),
            y@ == encode_utf8(b@),
            forall|j: int| 0 <= j < i ==> x@[j] == y@[j],
        decreases x.len() - i,
    {
        if x[i] != y[i] {
            return false;
        }
        i = i + 1;
    }
    assert(x@ =~= y@);
    true
}

/// The text of `a` followed by that of `b`.
pub fn concat(a: &str, b: &str) -> (r: String)
    ensures
        r@ == a@ + b@,
{
    let mut s = String::from_str(a);
    s.append(b);
    s
}

/// Whether `s` begins with `p`.
pub open spec fn begins_with(s: Seq<char>, p: Seq<char>) -> bool {
    p.len() <= s.len() && s.subrange(0, p.len() as int) == p
}

/// Whether `s` begins with `p`.
pub fn starts_with(s: &str, p: &str) -> (r: bool)
    ensures
        r == begins_with(s@, p@),
{
    let n = p.unicode_len();
    if n > s.unicode_len() {
        return false;
    }
    text_eq(s.substring_char(0, n), p)
}

/// Whether `c` is an ASCII letter.
pub open spec fn is_ascii_letter(c: char) -> bool {
    ('a' <= c && c <= 'z') || ('A' <= c && c <= 'Z')
}

/// Whether `s` has the form of a keyword: `@` followed by one or more ASCII letters.
pub open spec fn has_keyword_form(s: Seq<char>) -> bool {
    &&& s.len() >= 2
    &&& s[0] == '@'
    &&& forall|i: int| 1 <= i < s.len() ==> is_ascii_letter(s[i])
}

/// Whether `s` has the form of a keyword.
pub fn check_keyword_form(s: &str) -> (r: bool)
    ensures
        r == has_keyword_form(s@),
{
    let n = s.unicode_len();
    if n < 2 || s.get_char(0) != '@' {
        return false;
    }
    let mut i: usize = 1;
    while i < n
        invariant
            n == s@.len(),
            1 <= i <= n,
            forall|j: int| 1 <= j < i ==> is_ascii_letter(s@[j]),
        decreases n - i,
    {
        let c = s.get_char(i);
        if !((c >= 'a' && c <= 'z') || (c >= 'A' && c <= 'Z')) {
            return false;
        }
        i = i + 1;
    }
    true
}

/// Whether `s` is a keyword.
pub open spec fn is_keyword(s: Seq<char>) -> bool {
    s == "@base"@ || s == "@container"@ || s == "@context"@ || s == "@direction"@ || s == "@graph"@ || s
        == "@id"@ || s == "@import"@ || s == "@included"@ || s == "@index"@ || s == "@json"@ || s
        == "@language"@ || s == "@list"@ || s == "@nest"@ || s == "@none"@ || s == "@prefix"@ || s
        == "@propagate"@ || s == "@protected"@ || s == "@reverse"@ || s == "@set"@ || s == "@type"@ || s
        == "@value"@ || s == "@version"@ || s == "@vocab"@
}

/// Whether `s` is a keyword.
pub fn check_keyword(s: &str) -> (r: bool)
    ensures
        r == is_keyword(s@),
{
    text_eq(s, "@base") || text_eq(s, "@container") || text_eq(s, "@context") || text_eq(s, "@direction")
        || text_eq(s, "@graph") || text_eq(s, "@id") || text_eq(s, "@import") || text_eq(s, "@included")
        || text_eq(s, "@index") || text_eq(s, "@json") || text_eq(s, "@language") || text_eq(s, "@list")
        || text_eq(s, "@nest") || text_eq(s, "@none") || text_eq(s, "@prefix") || text_eq(
        s,
        "@propagate",
    ) || text_eq(s, "@protected") || text_eq(s, "@reverse") || text_eq(s, "@set") || text_eq(s, "@type")
        || text_eq(s, "@value") || text_eq(s, "@version") || text_eq(s, "@vocab")
}

/// Whether `c` is one of the characters that end the part of an IRI before a name: `:/?#[]@`.
pub open spec fn is_gen_delim(c: char) -> bool {
    c == ':' || c == '/' || c == '?' || c == '#' || c == '[' || c == ']' || c == '@'
}

/// Whether `s` ends with one of the characters `:/?#[]@`.
pub open spec fn ends_with_gen_delim(s: Seq<char>) -> bool {
    s.len() > 0 && is_gen_delim(s.last())
}

/// Whether `s` ends with one of the characters `:/?#[]@`.
pub fn check_ends_with_gen_delim(s: &str) -> (r: bool)
    ensures
        r == ends_with_gen_delim(s@),
{
    let n = s.unicode_len();
    if n == 0 {
        return false;
    }
    let c = s.get_char(n - 1);
    c == ':' || c == '/' || c == '?' || c == '#' || c == '[' || c == ']' || c == '@'
}

/// The position of `key` among `keys`: the first where it stands, if it does.
pub open spec fn key_position(keys: Seq<Seq<char>>, key: Seq<char>) -> Option<int> {
    if exists|i: int| is_key_position(keys, key, i) {
        Some(choose|i: int| is_key_position(keys, key, i))
    } else {
        None
    }
}

/// `i` is the first position where `key` stands among `keys`.
pub open spec fn is_key_position(keys: Seq<Seq<char>>, key: Seq<char>, i: int) -> bool {
    &&& 0 <= i < keys.len()
    &&& keys[i] == key
    &&& forall|j: int| 0 <= j < i ==> keys[j] != key
}

/// The first position that qualifies is the one that `key_position` gives.
pub proof fn lemma_key_position(keys: Seq<Seq<char>>, key: Seq<char>, i: int)
    requires
        is_key_position(keys, key, i),
    ensures
        key_position(keys, key) == Some(i),
{
    let k = choose|k: int| is_key_position(keys, key, k);
    assert(is_key_position(keys, key, k));
    assert(k == i);
}

/// No position qualifies where the key stands nowhere.
pub proof fn lemma_no_key_position(keys: Seq<Seq<char>>, key: Seq<char>)
    requires
        forall|j: int| 0 <= j < keys.len() ==> keys[j] != key,
    ensures
        key_position(keys, key) is None,
{
}

} // verus!
