//! Contexts as they are written: the value of an `@context` entry.

use vstd::prelude::*;

use crate::object::value::{text_of, Direction};

verus! {

/// A value that may be given as `null`.
pub enum Nullable<T> {
    /// An explicit `null`.
    Null,
    /// A value.
    Given(T),
}

/// A kind of container.
#[derive(Clone, Copy, PartialEq, Eq, Structural, Debug)]
pub enum ContainerKind {
    /// `@graph`.
    Graph,
    /// `@id`.
    Id,
    /// `@index`.
    Index,
    /// `@language`.
    Language,
    /// `@list`.
    List,
    /// `@set`.
    Unordered,
    /// `@type`.
    Type,
}

/// The container mapping of a term: one kind, or several.
pub enum Container {
    /// One kind, written as a string.
    One(ContainerKind),
    /// Several kinds, written as an array.
    Many(Vec<ContainerKind>),
}

/// The definition of a term.
pub enum TermDefinition {
    /// An IRI, a compact IRI, a term or a keyword, written as a string.
    Simple(String),
    /// A definition written as an object.
    Expanded(Box<Expanded>),
}

/// A term definition written as an object.
pub struct Expanded {
    /// `@id`.
    pub id: Option<Nullable<String>>,
    /// `@type`.
    pub type_: Option<Nullable<String>>,
    /// `@context`.
    pub context: Option<Box<Value>>,
    /// `@reverse`.
    pub reverse: Option<String>,
    /// `@index`.
    pub index: Option<String>,
    /// `@language`.
    pub language: Option<Nullable<String>>,
    /// `@direction`.
    pub direction: Option<Nullable<Direction>>,
    /// `@container`.
    pub container: Option<Nullable<Container>>,
    /// `@nest`.
    pub nest: Option<String>,
    /// `@prefix`.
    pub prefix: Option<bool>,
    /// `@propagate`.
    pub propagate: Option<bool>,
    /// `@protected`.
    pub protected: Option<bool>,
}

/// A term with its definition.
pub struct Binding {
    /// The term.
    pub term: String,
    /// Its definition, or `null`.
    pub definition: Nullable<TermDefinition>,
}

/// The `@type` entry of a context definition: `@container` is `@set`, and `@protected` may be given.
pub struct ContextType {
    /// `@protected`.
    pub protected: Option<bool>,
}

/// A context written as an object.
pub struct Definition {
    /// `@base`.
    pub base: Option<Nullable<String>>,
    /// `@import`.
    pub import: Option<String>,
    /// `@language`.
    pub language: Option<Nullable<String>>,
    /// `@direction`.
    pub direction: Option<Nullable<Direction>>,
    /// `@propagate`.
    pub propagate: Option<bool>,
    /// `@protected`.
    pub protected: Option<bool>,
    /// `@type`.
    pub type_: Option<ContextType>,
    /// `@version`, which can only be 1.1.
    pub version: bool,
    /// `@vocab`.
    pub vocab: Option<Nullable<String>>,
    /// The terms, in the order in which they were written.
    pub bindings: Vec<Binding>,
}

/// A context.
pub enum Context {
    /// `null`.
    Null,
    /// The IRI reference of a remote context.
    IriRef(String),
    /// A context definition.
    Definition(Definition),
}

/// The value of an `@context` entry: one context, or several in an array.
pub enum Value {
    /// One context.
    One(Context),
    /// Several contexts, which apply in order.
    Many(Vec<Context>),
}

/// The plain data of a container mapping.
pub enum ContainerModel {
    /// One kind.
    One(ContainerKind),
    /// Several kinds.
    Many(Seq<ContainerKind>),
}

/// The plain data of a term definition.
pub enum TermDefinitionModel {
    /// A string.
    Simple(Seq<char>),
    /// An object.
    Expanded(Box<ExpandedModel>),
}

/// The plain data of a term definition written as an object.
pub struct ExpandedModel {
    /// `@id`.
    pub id: Option<Nullable<Seq<char>>>,
    /// `@type`.
    pub type_: Option<Nullable<Seq<char>>>,
    /// `@context`.
    pub context: Option<Box<ValueModel>>,
    /// `@reverse`.
    pub reverse: Option<Seq<char>>,
    /// `@index`.
    pub index: Option<Seq<char>>,
    /// `@language`.
    pub language: Option<Nullable<Seq<char>>>,
    /// `@direction`.
    pub direction: Option<Nullable<Direction>>,
    /// `@container`.
    pub container: Option<Nullable<ContainerModel>>,
    /// `@nest`.
    pub nest: Option<Seq<char>>,
    /// `@prefix`.
    pub prefix: Option<bool>,
    /// `@propagate`.
    pub propagate: Option<bool>,
    /// `@protected`.
    pub protected: Option<bool>,
}

/// The plain data of a term with its definition.
pub struct BindingModel {
    /// The term.
    pub term: Seq<char>,
    /// Its definition, or `null`.
    pub definition: Nullable<TermDefinitionModel>,
}

/// The plain data of a context definition.
pub struct DefinitionModel {
    /// `@base`.
    pub base: Option<Nullable<Seq<char>>>,
    /// `@import`.
    pub import: Option<Seq<char>>,
    /// `@language`.
    pub language: Option<Nullable<Seq<char>>>,
    /// `@direction`.
    pub direction: Option<Nullable<Direction>>,
    /// `@propagate`.
    pub propagate: Option<bool>,
    /// `@protected`.
    pub protected: Option<bool>,
    /// `@type`, with what it gives for `@protected`.
    pub type_: Option<Option<bool>>,
    /// Whether `@version` is given.
    pub version: bool,
    /// `@vocab`.
    pub vocab: Option<Nullable<Seq<char>>>,
    /// The terms, in order.
    pub bindings: Seq<BindingModel>,
}

/// The plain data of a context.
pub enum ContextModel {
    /// `null`.
    Null,
    /// The IRI reference of a remote context.
    IriRef(Seq<char>),
    /// A context definition.
    Definition(DefinitionModel),
}

/// The plain data of the value of an `@context` entry.
pub enum ValueModel {
    /// One context.
    One(ContextModel),
    /// Several contexts.
    Many(Seq<ContextModel>),
}

/// The text of a string that may be given as `null`.
pub open spec fn nullable_text(n: Nullable<String>) -> Nullable<Seq<char>> {
    match n {
        Nullable::Null => Nullable::Null,
        Nullable::Given(s) => Nullable::Given(s@),
    }
}

/// The text of an optional string that may be given as `null`.
pub open spec fn optional_nullable_text(n: Option<Nullable<String>>) -> Option<Nullable<Seq<char>>> {
    match n {
        Some(n) => Some(nullable_text(n)),
        None => None,
    }
}

/// The plain data of a container mapping.
pub open spec fn container_model(c: Container) -> ContainerModel {
    match c {
        Container::One(k) => ContainerModel::One(k),
        Container::Many(ks) => ContainerModel::Many(ks@),
    }
}

/// The plain data of a term definition.
pub open spec fn term_definition_model(d: TermDefinition) -> TermDefinitionModel
    decreases d,
{
    match d {
        TermDefinition::Simple(s) => TermDefinitionModel::Simple(s@),
        TermDefinition::Expanded(e) => TermDefinitionModel::Expanded(Box::new(expanded_model(*e))),
    }
}

/// The plain data of a term definition written as an object.
pub open spec fn expanded_model(e: Expanded) -> ExpandedModel
    decreases e,
{
    ExpandedModel {
        id: optional_nullable_text(e.id),
        type_: optional_nullable_text(e.type_),
        context: match e.context {
            Some(c) => Some(Box::new(value_model(*c))),
            None => None,
        },
        reverse: text_of(e.reverse),
        index: text_of(e.index),
        language: optional_nullable_text(e.language),
        direction: e.direction,
        container: match e.container {
            Some(Nullable::Given(c)) => Some(Nullable::Given(container_model(c))),
            Some(Nullable::Null) => Some(Nullable::Null),
            None => None,
        },
        nest: text_of(e.nest),
        prefix: e.prefix,
        propagate: e.propagate,
        protected: e.protected,
    }
}

/// The plain data of a term with its definition.
pub open spec fn binding_model(b: Binding) -> BindingModel
    decreases b,
{
    BindingModel {
        term: b.term@,
        definition: match b.definition {
            Nullable::Null => Nullable::Null,
            Nullable::Given(d) => Nullable::Given(term_definition_model(d)),
        },
    }
}

/// The plain data of the terms of a context definition.
pub open spec fn bindings_model(bs: Seq<Binding>) -> Seq<BindingModel>
    decreases bs,
{
    Seq::new(
        bs.len(),
        |i: int|
            if 0 <= i < bs.len() {
                binding_model(bs[i])
            } else {
                BindingModel { term: Seq::empty(), definition: Nullable::Null }
            },
    )
}

/// The plain data of a context definition.
pub open spec fn definition_model(d: Definition) -> DefinitionModel
    decreases d,
{
    DefinitionModel {
        base: optional_nullable_text(d.base),
        import: text_of(d.import),
        language: optional_nullable_text(d.language),
        direction: d.direction,
        propagate: d.propagate,
        protected: d.protected,
        type_: match d.type_ {
            Some(t) => Some(t.protected),
            None => None,
        },
        version: d.version,
        vocab: optional_nullable_text(d.vocab),
        bindings: bindings_model(d.bindings@),
    }
}

/// The plain data of a context.
pub open spec fn context_model(c: Context) -> ContextModel
    decreases c,
{
    match c {
        Context::Null => ContextModel::Null,
        Context::IriRef(r) => ContextModel::IriRef(r@),
        Context::Definition(d) => ContextModel::Definition(definition_model(d)),
    }
}

/// The plain data of several contexts.
pub open spec fn contexts_model(cs: Seq<Context>) -> Seq<ContextModel>
    decreases cs,
{
    Seq::new(
        cs.len(),
        |i: int|
            if 0 <= i < cs.len() {
                context_model(cs[i])
            } else {
                ContextModel::Null
            },
    )
}

/// The plain data of the value of an `@context` entry.
pub open spec fn value_model(v: Value) -> ValueModel
    decreases v,
{
    match v {
        Value::One(c) => ValueModel::One(context_model(c)),
        Value::Many(cs) => ValueModel::Many(contexts_model(cs@)),
    }
}

impl View for Container {
    type V = ContainerModel;

    open spec fn view(&self) -> ContainerModel {
        container_model(*self)
    }
}

impl View for TermDefinition {
    type V = TermDefinitionModel;

    open spec fn view(&self) -> TermDefinitionModel {
        term_definition_model(*self)
    }
}

impl View for Expanded {
    type V = ExpandedModel;

    open spec fn view(&self) -> ExpandedModel {
        expanded_model(*self)
    }
}

impl View for Binding {
    type V = BindingModel;

    open spec fn view(&self) -> BindingModel {
        binding_model(*self)
    }
}

impl View for Definition {
    type V = DefinitionModel;

    open spec fn view(&self) -> DefinitionModel {
        definition_model(*self)
    }
}

impl View for Context {
    type V = ContextModel;

    open spec fn view(&self) -> ContextModel {
        context_model(*self)
    }
}

impl View for Value {
    type V = ValueModel;

    open spec fn view(&self) -> ValueModel {
        value_model(*self)
    }
}

impl ContainerKind {
    /// The keyword of this kind.
    pub open spec fn keyword(self) -> Seq<char> {
        match self {
            ContainerKind::Graph => "@graph"@,
            ContainerKind::Id => "@id"@,
            ContainerKind::Index => "@index"@,
            ContainerKind::Language => "@language"@,
            ContainerKind::List => "@list"@,
            ContainerKind::Unordered => "@set"@,
            ContainerKind::Type => "@type"@,
        }
    }

    /// The keyword of this kind.
    pub fn as_str(&self) -> (r: &'static str)
        ensures
            r@ == self.keyword(),
    {
        match self {
            ContainerKind::Graph => "@graph",
            ContainerKind::Id => "@id",
            ContainerKind::Index => "@index",
            ContainerKind::Language => "@language",
            ContainerKind::List => "@list",
            ContainerKind::Unordered => "@set",
            ContainerKind::Type => "@type",
        }
    }
}

/// The keyword of a direction.
pub open spec fn direction_keyword(d: Direction) -> Seq<char> {
    match d {
        Direction::Ltr => "ltr"@,
        Direction::Rtl => "rtl"@,
    }
}

/// The keyword of a direction.
pub fn direction_as_str(d: Direction) -> (r: &'static str)
    ensures
        r@ == direction_keyword(d),
{
    match d {
        Direction::Ltr => "ltr",
        Direction::Rtl => "rtl",
    }
}

} // verus!
