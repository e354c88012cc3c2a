//! Compact IRIs: strings of the form `prefix:suffix`.

use vstd::prelude::*;
use vstd::string::*;

verus! {

/// `i` is the position of the first colon of `s`.
pub open spec fn is_first_colon(s: Seq<char>, i: int) -> bool {
    &&& 0 <= i < s.len()
    &&& s[i] == ':'
    &&& forall|j: int| 0 <= j < i ==> s[j] != ':'
}

/// `s` holds at least one colon.
pub open spec fn has_colon(s: Seq<char>) -> bool {
    exists|i: int| is_first_colon(s, i)
}

/// The position of the first colon of `s`, where it has one.
pub open spec fn colon_index(s: Seq<char>) -> int {
    choose|i: int| is_first_colon(s, i)
}

/// What stands before the first colon.
pub open spec fn prefix_of(s: Seq<char>) -> Seq<char> {
    s.subrange(0, colon_index(s))
}

/// What stands after the first colon.
pub open spec fn suffix_of(s: Seq<char>) -> Seq<char> {
    s.subrange(colon_index(s) + 1, s.len() as int)
}

/// The compact IRI syntax: exactly one colon, with a non-empty prefix before
/// it and after it a non-empty suffix that does not begin with `//`.
pub open spec fn is_compact_iri(s: Seq<char>) -> bool {
    &&& has_colon(s)
    &&& forall|j: int| 0 <= j < s.len() && j != colon_index(s) ==> s[j] != ':'
    &&& prefix_of(s).len() > 0
    &&& suffix_of(s).len() > 0
    &&& !(suffix_of(s).len() >= 2 && suffix_of(s)[0] == '/' && suffix_of(s)[1] == '/')
}

/// The first colon is unique: any position that qualifies is `colon_index`.
pub proof fn lemma_colon_index(s: Seq<char>, i: int)
    requires
        is_first_colon(s, i),
    ensures
        has_colon(s),
        colon_index(s) == i,
{
    let c = colon_index(s);
    assert(is_first_colon(s, c));
}

/// A string without any colon has no first colon.
pub proof fn lemma_no_colon(s: Seq<char>)
    requires
        forall|j: int| 0 <= j < s.len() ==> s[j] != ':',
    ensures
        !has_colon(s),
{
}

/// Scans `s` for its first colon.
fn find_colon(s: &str) -> (r: Option<usize>)
    ensures
        r is Some <==> has_colon(s@),
        r matches Some(i) ==> i == colon_index(s@) && i < s@.len(),
{
    let n = s.unicode_len();
    let mut i: usize = 0;
    while i < n
        invariant
            n == s@.len(),
            i <= n,
            forall|j: int| 0 <= j < i ==> s@[j] != ':',
        decreases n - i,
    {
        if s.get_char(i) == ':' {
            proof {
                lemma_colon_index(s@, i as int);
            }
            return Some(i);
        }
        i = i + 1;
    }
    proof {
        lemma_no_colon(s@);
    }
    None
}

/// Whether no colon stands in `s` from position `from` on.
fn no_colon_from(s: &str, from: usize) -> (r: bool)
    requires
        from <= s@.len(),
    ensures
        r <==> forall|j: int| from <= j < s@.len() ==> s@[j] != ':',
{
    let n = s.unicode_len();
    let mut i: usize = from;
    while i < n
        invariant
            n == s@.len(),
            from <= i <= n,
            forall|j: int| from <= j < i ==> s@[j] != ':',
        decreases n - i,
    {
        if s.get_char(i) == ':' {
            return false;
        }
        i = i + 1;
    }
    true
}

/// Decides the compact IRI syntax.
pub fn check_compact_iri(s: &str) -> (r: bool)
    ensures
        r == is_compact_iri(s@),
{
    match find_colon(s) {
        None => false,
        Some(i) => {
            let n = s.unicode_len();
            if i == 0 || i + 1 >= n {
                return false;
            }
            if !no_colon_from(s, i + 1) {
                return false;
            }
            if i + 2 < n && s.get_char(i + 1) == '/' && s.get_char(i + 2) == '/' {
                return false;
            }
            true
        },
    }
}

/// A borrowed compact IRI.
#[derive(Clone, Copy)]
pub struct CompactIri<'a>(&'a str);

/// An owned compact IRI.
pub struct CompactIriBuf(String);

impl<'a> View for CompactIri<'a> {
    type V = Seq<char>;

    closed spec fn view(&self) -> Seq<char> {
        self.0@
    }
}

impl View for CompactIriBuf {
    type V = Seq<char>;

    closed spec fn view(&self) -> Seq<char> {
        self.0@
    }
}

impl<'a> CompactIri<'a> {
    #[verifier::type_invariant]
    spec fn well_formed(self) -> bool {
        is_compact_iri(self.0@)
    }

    /// Checks `s` against the compact IRI syntax.
    pub fn new(s: &'a str) -> (r: Option<Self>)
        ensures
            r is Some <==> is_compact_iri(s@),
            r matches Some(c) ==> c@ == s@,
    {
        if check_compact_iri(s) {
            Some(CompactIri(s))
        } else {
            None
        }
    }

    /// Wraps a string that is known to be a compact IRI.
    pub fn new_unchecked(s: &'a str) -> (r: Self)
        requires
            is_compact_iri(s@),
        ensures
            r@ == s@,
    {
        CompactIri(s)
    }

    /// The whole compact IRI.
    pub fn as_str(&self) -> (r: &'a str)
        ensures
            r@ == self@,
            is_compact_iri(r@),
    {
        proof {
            use_type_invariant(self);
        }
        self.0
    }

    /// An owned copy.
    pub fn to_owned(&self) -> (r: CompactIriBuf)
        ensures
            r@ == self@,
    {
        proof {
            use_type_invariant(self);
        }
        CompactIriBuf(self.0.to_owned())
    }

    /// The part before the colon.
    pub fn prefix(&self) -> (r: &'a str)
        ensures
            r@ == prefix_of(self@),
            r@.len() > 0,
    {
        proof {
            use_type_invariant(self);
        }
        match find_colon(self.0) {
            Some(i) => self.0.substring_char(0, i),
            None => self.0,
        }
    }

    /// The part after the colon.
    pub fn suffix(&self) -> (r: &'a str)
        ensures
            r@ == suffix_of(self@),
            r@.len() > 0,
    {
        proof {
            use_type_invariant(self);
        }
        let n = self.0.unicode_len();
        match find_colon(self.0) {
            Some(i) => self.0.substring_char(i + 1, n),
            None => self.0,
        }
    }
}

impl Clone for CompactIriBuf {
    fn clone(&self) -> (r: Self)
        ensures
            r@ == self@,
    {
        proof {
            use_type_invariant(self);
        }
        CompactIriBuf(self.0.clone())
    }
}

impl CompactIriBuf {
    #[verifier::type_invariant]
    spec fn well_formed(self) -> bool {
        is_compact_iri(self.0@)
    }

    /// Checks `s` against the compact IRI syntax; hands `s` back where it fails.
    pub fn new(s: String) -> (r: Result<Self, String>)
        ensures
            r is Ok <==> is_compact_iri(s@),
            r matches Ok(c) ==> c@ == s@,
            r matches Err(e) ==> e@ == s@,
    {
        if check_compact_iri(s.as_str()) {
            Ok(CompactIriBuf(s))
        } else {
            Err(s)
        }
    }

    /// Borrows the compact IRI.
    pub fn as_compact_iri(&self) -> (r: CompactIri<'_>)
        ensures
            r@ == self@,
    {
        proof {
            use_type_invariant(self);
        }
        CompactIri(self.0.as_str())
    }

    /// Gives the underlying string back.
    pub fn into_string(self) -> (r: String)
        ensures
            r@ == self@,
            is_compact_iri(r@),
    {
        proof {
            use_type_invariant(&self);
        }
        self.0
    }
}

} // verus!
