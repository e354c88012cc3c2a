//! Literal values.

use vstd::prelude::*;

verus! {

/// The base direction of a text.
#[derive(Clone, Copy, PartialEq, Eq, Structural, Debug)]
pub enum Direction {
    /// Left to right.
    Ltr,
    /// Right to left.
    Rtl,
}

/// A JSON scalar.
pub enum Literal {
    /// `true` or `false`.
    Boolean(bool),
    /// A number, in the form in which it was written.
    Number(String),
    /// A text.
    Text(String),
}

/// A literal value with what qualifies it.
pub struct Value<T> {
    /// The scalar itself.
    pub literal: Literal,
    /// The IRI of its datatype, if any.
    pub ty: Option<T>,
    /// Its language tag, if any.
    pub language: Option<String>,
    /// Its base direction, if any.
    pub direction: Option<Direction>,
}

/// What an optional string holds.
pub open spec fn text_of(s: Option<String>) -> Option<Seq<char>> {
    match s {
        Some(s) => Some(s@),
        None => None,
    }
}

/// Compares two optional strings.
pub fn same_text(a: &Option<String>, b: &Option<String>) -> (r: bool)
    ensures
        r == (text_of(*a) == text_of(*b)),
{
    match (a, b) {
        (Some(x), Some(y)) => *x == *y,
        (None, None) => true,
        _ => false,
    }
}

/// The plain data of a JSON scalar.
pub enum LiteralModel {
    /// `true` or `false`.
    Boolean(bool),
    /// A number, in the form in which it was written.
    Number(Seq<char>),
    /// A text.
    Text(Seq<char>),
}

impl Literal {
    /// The plain data of the literal.
    pub open spec fn view(&self) -> LiteralModel {
        match self {
            Literal::Boolean(b) => LiteralModel::Boolean(*b),
            Literal::Number(n) => LiteralModel::Number(n@),
            Literal::Text(s) => LiteralModel::Text(s@),
        }
    }

    /// Whether two literals are of one kind and hold the same.
    pub fn same(&self, other: &Literal) -> (r: bool)
        ensures
            r == (self.view() == other.view()),
    {
        match (self, other) {
            (Literal::Boolean(a), Literal::Boolean(b)) => *a == *b,
            (Literal::Number(a), Literal::Number(b)) => *a == *b,
            (Literal::Text(a), Literal::Text(b)) => *a == *b,
            _ => false,
        }
    }
}

impl<T> Value<T> {
    /// A plain value: no datatype, language or direction.
    pub fn plain(literal: Literal) -> (r: Self)
        ensures
            r.literal == literal,
            r.ty is None,
            r.language is None,
            r.direction is None,
    {
        Value { literal, ty: None, language: None, direction: None }
    }
}

} // verus!
