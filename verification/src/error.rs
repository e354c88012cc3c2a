//! The failures of processing.

use vstd::prelude::*;

verus! {

/// What went wrong.
#[derive(Clone, Copy, PartialEq, Eq, Structural, Debug)]
pub enum ErrorCode {
    /// Two keywords of one object stand for the same thing.
    CollidingKeywords,
    /// The values of a list property hold more than one list.
    CompactionToListOfLists,
    /// An IRI would be read as a compact IRI.
    IriConfusedWithPrefix,
    /// More remote contexts were followed than the limit allows.
    ContextOverflow,
    /// A term is defined through itself.
    CyclicIriMapping,
    /// An `@direction` is neither `ltr`, `rtl` nor `null`.
    InvalidBaseDirection,
    /// An `@base` is no IRI reference, or cannot be resolved.
    InvalidBaseIri,
    /// An `@container` holds what it cannot hold.
    InvalidContainerMapping,
    /// An entry of a context holds what it cannot hold.
    InvalidContextEntry,
    /// A `null` context would drop protected terms.
    InvalidContextNullification,
    /// A default `@language` is neither a string nor `null`.
    InvalidDefaultLanguage,
    /// An `@id` is no string.
    InvalidIdValue,
    /// An `@import` is no string, or what it names is no context definition.
    InvalidImportValue,
    /// An `@included` holds what is no node.
    InvalidIncludedValue,
    /// An `@index` is no string.
    InvalidIndexValue,
    /// A term stands for what is no IRI, blank node label or keyword.
    InvalidIriMapping,
    /// A keyword is given another name together with `@context`.
    InvalidKeywordAlias,
    /// A value of a language map is no string.
    InvalidLanguageMapValue,
    /// An `@language` of a term is neither a string nor `null`.
    InvalidLanguageMapping,
    /// A value object with a language holds what is no string.
    InvalidLanguageTaggedString,
    /// An `@language` of a value object is no string.
    InvalidLanguageTaggedValue,
    /// A list object holds what it cannot hold.
    InvalidListObject,
    /// A context is neither `null`, a string nor an object.
    InvalidLocalContext,
    /// An `@nest` holds what it cannot hold.
    InvalidNestValue,
    /// An `@prefix` is no truth value.
    InvalidPrefixValue,
    /// An `@propagate` is no truth value.
    InvalidPropagateValue,
    /// An `@protected` is no truth value.
    InvalidProtectedValue,
    /// A remote document holds no context.
    InvalidRemoteContext,
    /// An `@reverse` stands where it cannot stand.
    InvalidReverseProperty,
    /// A reverse property has a value or a list as its value.
    InvalidReversePropertyValue,
    /// An `@reverse` is no object.
    InvalidReverseValue,
    /// The context of a term cannot be processed.
    InvalidScopedContext,
    /// A set or a list object holds what it cannot hold.
    InvalidSetOrListObject,
    /// The definition of a term holds what it cannot hold.
    InvalidTermDefinition,
    /// An `@type` of a term is none that a term can have.
    InvalidTypeMapping,
    /// An `@type` is no string or array of strings.
    InvalidTypeValue,
    /// A value object with a type holds what it cannot hold.
    InvalidTypedValue,
    /// A value object holds what it cannot hold.
    InvalidValueObject,
    /// The `@value` of a value object is no scalar.
    InvalidValueObjectValue,
    /// An `@version` is not 1.1.
    InvalidVersionValue,
    /// An `@vocab` is neither an IRI, a blank node label nor `null`.
    InvalidVocabMapping,
    /// A keyword is defined as a term.
    KeywordRedefinition,
    /// A remote context could not be loaded.
    LoadingRemoteContextFailed,
    /// A protected term is defined anew.
    ProtectedTermRedefinition,
    /// A remote context includes itself.
    RecursiveContextInclusion,
}

impl ErrorCode {
    /// The name of the failure, as text.
    pub open spec fn name(self) -> Seq<char> {
        match self {
            ErrorCode::CollidingKeywords => "colliding keywords"@,
            ErrorCode::CompactionToListOfLists => "compaction to list of lists"@,
            ErrorCode::IriConfusedWithPrefix => "IRI confused with prefix"@,
            ErrorCode::ContextOverflow => "context overflow"@,
            ErrorCode::CyclicIriMapping => "cyclic IRI mapping"@,
            ErrorCode::InvalidBaseDirection => "invalid base direction"@,
            ErrorCode::InvalidBaseIri => "invalid base IRI"@,
            ErrorCode::InvalidContainerMapping => "invalid container mapping"@,
            ErrorCode::InvalidContextEntry => "invalid context entry"@,
            ErrorCode::InvalidContextNullification => "invalid context nullification"@,
            ErrorCode::InvalidDefaultLanguage => "invalid default language"@,
            ErrorCode::InvalidIdValue => "invalid @id value"@,
            ErrorCode::InvalidImportValue => "invalid @import value"@,
            ErrorCode::InvalidIncludedValue => "invalid @included value"@,
            ErrorCode::InvalidIndexValue => "invalid @index value"@,
            ErrorCode::InvalidIriMapping => "invalid IRI mapping"@,
            ErrorCode::InvalidKeywordAlias => "invalid keyword alias"@,
            ErrorCode::InvalidLanguageMapValue => "invalid language map value"@,
            ErrorCode::InvalidLanguageMapping => "invalid language mapping"@,
            ErrorCode::InvalidLanguageTaggedString => "invalid language-tagged string"@,
            ErrorCode::InvalidLanguageTaggedValue => "invalid language-tagged value"@,
            ErrorCode::InvalidListObject => "invalid list object"@,
            ErrorCode::InvalidLocalContext => "invalid local context"@,
            ErrorCode::InvalidNestValue => "invalid @nest value"@,
            ErrorCode::InvalidPrefixValue => "invalid @prefix value"@,
            ErrorCode::InvalidPropagateValue => "invalid @propagate value"@,
            ErrorCode::InvalidProtectedValue => "invalid @protected value"@,
            ErrorCode::InvalidRemoteContext => "invalid remote context"@,
            ErrorCode::InvalidReverseProperty => "invalid reverse property"@,
            ErrorCode::InvalidReversePropertyValue => "invalid reverse property value"@,
            ErrorCode::InvalidReverseValue => "invalid @reverse value"@,
            ErrorCode::InvalidScopedContext => "invalid scoped context"@,
            ErrorCode::InvalidSetOrListObject => "invalid set or list object"@,
            ErrorCode::InvalidTermDefinition => "invalid term definition"@,
            ErrorCode::InvalidTypeMapping => "invalid type mapping"@,
            ErrorCode::InvalidTypeValue => "invalid type value"@,
            ErrorCode::InvalidTypedValue => "invalid typed value"@,
            ErrorCode::InvalidValueObject => "invalid value object"@,
            ErrorCode::InvalidValueObjectValue => "invalid value object value"@,
            ErrorCode::InvalidVersionValue => "invalid @version value"@,
            ErrorCode::InvalidVocabMapping => "invalid vocab mapping"@,
            ErrorCode::KeywordRedefinition => "keyword redefinition"@,
            ErrorCode::LoadingRemoteContextFailed => "loading remote context failed"@,
            ErrorCode::ProtectedTermRedefinition => "protected term redefinition"@,
            ErrorCode::RecursiveContextInclusion => "recursive context inclusion"@,
        }
    }

    /// The name of the failure.
    pub fn as_str(&self) -> (r: &'static str)
        ensures
            r@ == self.name(),
    {
        match self {
            ErrorCode::CollidingKeywords => "colliding keywords",
            ErrorCode::CompactionToListOfLists => "compaction to list of lists",
            ErrorCode::IriConfusedWithPrefix => "IRI confused with prefix",
            ErrorCode::ContextOverflow => "context overflow",
            ErrorCode::CyclicIriMapping => "cyclic IRI mapping",
            ErrorCode::InvalidBaseDirection => "invalid base direction",
            ErrorCode::InvalidBaseIri => "invalid base IRI",
            ErrorCode::InvalidContainerMapping => "invalid container mapping",
            ErrorCode::InvalidContextEntry => "invalid context entry",
            ErrorCode::InvalidContextNullification => "invalid context nullification",
            ErrorCode::InvalidDefaultLanguage => "invalid default language",
            ErrorCode::InvalidIdValue => "invalid @id value",
            ErrorCode::InvalidImportValue => "invalid @import value",
            ErrorCode::InvalidIncludedValue => "invalid @included value",
            ErrorCode::InvalidIndexValue => "invalid @index value",
            ErrorCode::InvalidIriMapping => "invalid IRI mapping",
            ErrorCode::InvalidKeywordAlias => "invalid keyword alias",
            ErrorCode::InvalidLanguageMapValue => "invalid language map value",
            ErrorCode::InvalidLanguageMapping => "invalid language mapping",
            ErrorCode::InvalidLanguageTaggedString => "invalid language-tagged string",
            ErrorCode::InvalidLanguageTaggedValue => "invalid language-tagged value",
            ErrorCode::InvalidListObject => "invalid list object",
            ErrorCode::InvalidLocalContext => "invalid local context",
            ErrorCode::InvalidNestValue => "invalid @nest value",
            ErrorCode::InvalidPrefixValue => "invalid @prefix value",
            ErrorCode::InvalidPropagateValue => "invalid @propagate value",
            ErrorCode::InvalidProtectedValue => "invalid @protected value",
            ErrorCode::InvalidRemoteContext => "invalid remote context",
            ErrorCode::InvalidReverseProperty => "invalid reverse property",
            ErrorCode::InvalidReversePropertyValue => "invalid reverse property value",
            ErrorCode::InvalidReverseValue => "invalid @reverse value",
            ErrorCode::InvalidScopedContext => "invalid scoped context",
            ErrorCode::InvalidSetOrListObject => "invalid set or list object",
            ErrorCode::InvalidTermDefinition => "invalid term definition",
            ErrorCode::InvalidTypeMapping => "invalid type mapping",
            ErrorCode::InvalidTypeValue => "invalid type value",
            ErrorCode::InvalidTypedValue => "invalid typed value",
            ErrorCode::InvalidValueObject => "invalid value object",
            ErrorCode::InvalidValueObjectValue => "invalid value object value",
            ErrorCode::InvalidVersionValue => "invalid @version value",
            ErrorCode::InvalidVocabMapping => "invalid vocab mapping",
            ErrorCode::KeywordRedefinition => "keyword redefinition",
            ErrorCode::LoadingRemoteContextFailed => "loading remote context failed",
            ErrorCode::ProtectedTermRedefinition => "protected term redefinition",
            ErrorCode::RecursiveContextInclusion => "recursive context inclusion",
        }
    }
}

/// A failure of processing. Where a remote context could not be loaded, it
/// carries the failure of the loader.
pub struct Error<E> {
    /// What went wrong.
    pub code: ErrorCode,
    /// The failure of the loader.
    pub cause: Option<E>,
}

impl<E> Error<E> {
    /// A failure of the processing itself.
    pub fn new(code: ErrorCode) -> (r: Self)
        ensures
            r.code == code,
            r.cause is None,
    {
        Error { code, cause: None }
    }

    /// The failure to load a remote context.
    pub fn loading(cause: E) -> (r: Self)
        ensures
            r.code == ErrorCode::LoadingRemoteContextFailed,
            r.cause == Some(cause),
    {
        Error { code: ErrorCode::LoadingRemoteContextFailed, cause: Some(cause) }
    }
}

} // verus!
