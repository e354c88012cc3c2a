//! Documents: what can be expanded and compacted.

use vstd::prelude::*;

use crate::compaction::model::{compact_document, wrapped, Options};
use crate::compaction::objects::{compact_document_exec, wrap};
use crate::context::{ActiveContext, ActiveContextModel};
use crate::error::{Error, ErrorCode};
use crate::expansion::elements::expand;
use crate::expansion::model::{embedded, expanded};
use crate::expansion::values::ExpandedObject;
use crate::iri::IriBuf;
use crate::json::{clone_json, Json, JsonView};
use crate::loader::{Loader, RemoteDocument, well_caused};
use crate::object::indexed::Indexed;
use crate::object::model::{objects_model, IndexedObjectModel};
use crate::processing::contexts::{found_by, iri_text, process, processed};

verus! {

/// Result of the document expansion algorithm.
///
/// It is the collection of the (indexed) objects of the document; their order carries no meaning.
pub type ExpandedDocument = Vec<Indexed<ExpandedObject>>;

impl Options {
    /// The options by default: arrays of one item are compacted.
    pub open spec fn default_options() -> Options {
        Options { compact_arrays: true }
    }
}

impl Default for Options {
    fn default() -> (r: Options)
        ensures
            r == Options::default_options(),
    {
        Options { compact_arrays: true }
    }
}

/// How contexts that are given for a document are processed.
fn given_options() -> (r: crate::processing::model::Options)
    ensures
        r == embedded(),
{
    crate::processing::model::Options { override_protected: false, propagate: true, validate_scoped: true }
}

/// A copy of an optional IRI.
fn clone_iri(iri: &Option<IriBuf>) -> (r: Option<IriBuf>)
    ensures
        iri_text(r) == iri_text(*iri),
{
    match iri {
        Some(i) => Some(i.clone()),
        None => None,
    }
}

/// The compaction of the document `doc` with the context `context`: the
/// context is processed on the context without terms; the document is
/// expanded in the context without terms; its objects are compacted with
/// what came of the context, and made a document in which the context stands.
pub open spec fn compacted(
    doc: JsonView,
    base: Option<Seq<char>>,
    context: JsonView,
    found: spec_fn(Seq<char>) -> Option<(Seq<char>, JsonView)>,
    options: Options,
) -> Result<JsonView, ErrorCode> {
    match processed(ActiveContextModel::empty(base), context, base, found, embedded()) {
        Err(e) => Err(e),
        Ok(active) => match expanded(ActiveContextModel::empty(base), doc, base, found) {
            Err(e) => Err(e),
            Ok(objects) => match compact_document(active, objects, options) {
                Err(e) => Err(e),
                Ok(j) => Ok(wrapped(active, j, context)),
            },
        },
    }
}

/// JSON-LD document.
///
/// This trait represent a JSON-LD document that can be expanded into an [`ExpandedDocument`].
/// It is notably implemented for the [`Json`] type.
pub trait Document {
    /// The content of the document.
    spec fn content(&self) -> JsonView;

    /// The IRI of the document, if any.
    spec fn location(&self) -> Option<Seq<char>>;

    /// Document location, if any.
    fn base_url(&self) -> (r: Option<IriBuf>)
        ensures
            iri_text(r) == self.location(),
    ;

    /// Expand the document with a custom base URL, initial context and document loader.
    ///
    /// If you do not wish to set the base URL yourself, the
    /// [`expand`](`Document::expand`) method is more appropriate.
    fn expand_with<L: Loader>(&self, base_url: &Option<IriBuf>, context: &ActiveContext, loader: &mut L) -> (r:
        Result<ExpandedDocument, Error<L::Error>>)
        ensures
            well_caused::<_, L>(r, found_by(*old(loader))),
            forall|u: Seq<char>| #[trigger] final(loader).found(u) == old(loader).found(u),
            match r {
                Ok(os) => expanded(context@, self.content(), iri_text(*base_url), found_by(*old(loader))) == Ok::<
                    Seq<IndexedObjectModel>,
                    ErrorCode,
                >(objects_model(os@)),
                Err(e) => expanded(context@, self.content(), iri_text(*base_url), found_by(*old(loader))) == Err::<
                    Seq<IndexedObjectModel>,
                    ErrorCode,
                >(e.code),
            },
    ;

    /// Expand the document.
    ///
    /// Uses the given document loader, and the initial context without terms.
    /// It is equivalent to [`expand_with`](`Document::expand_with`), but
    /// uses the document [`base_url`](`Document::base_url`).
    fn expand<L: Loader>(&self, loader: &mut L) -> (r: Result<ExpandedDocument, Error<L::Error>>)
        ensures
            well_caused::<_, L>(r, found_by(*old(loader))),
            forall|u: Seq<char>| #[trigger] final(loader).found(u) == old(loader).found(u),
            match r {
                Ok(os) => expanded(
                    ActiveContextModel::empty(self.location()),
                    self.content(),
                    self.location(),
                    found_by(*old(loader)),
                ) == Ok::<Seq<IndexedObjectModel>, ErrorCode>(objects_model(os@)),
                Err(e) => expanded(
                    ActiveContextModel::empty(self.location()),
                    self.content(),
                    self.location(),
                    found_by(*old(loader)),
                ) == Err::<Seq<IndexedObjectModel>, ErrorCode>(e.code),
            },
    {
        let base = self.base_url();
        let context = ActiveContext::new(clone_iri(&base));
        self.expand_with(&base, &context, loader)
    }

    /// Compact the document with a custom base URL, context, document loader and options.
    fn compact_with<L: Loader>(
        &self,
        base_url: &Option<IriBuf>,
        context: &Json,
        loader: &mut L,
        options: Options,
    ) -> (r: Result<Json, Error<L::Error>>)
        ensures
            well_caused::<_, L>(r, found_by(*old(loader))),
            forall|u: Seq<char>| #[trigger] final(loader).found(u) == old(loader).found(u),
            match r {
                Ok(j) => compacted(self.content(), iri_text(*base_url), context@, found_by(*old(loader)), options)
                    == Ok::<JsonView, ErrorCode>(j@),
                Err(e) => compacted(self.content(), iri_text(*base_url), context@, found_by(*old(loader)), options)
                    == Err::<JsonView, ErrorCode>(e.code),
            },
    {
        let ghost before = *loader;
        let empty = ActiveContext::new(clone_iri(base_url));
        let active = match process(&empty, context, base_url, loader, given_options()) {
            Err(e) => {
                return Err(e);
            },
            Ok(a) => a,
        };
        assert(found_by(*loader) =~= found_by(before));
        let objects = match self.expand_with(base_url, &empty, loader) {
            Err(e) => {
                return Err(e);
            },
            Ok(os) => os,
        };
        match compact_document_exec(&active, &objects, options) {
            Err(code) => Err(Error::new(code)),
            Ok(j) => Ok(wrap(&active, j, clone_json(context))),
        }
    }

    /// Compact the document.
    fn compact<L: Loader>(&self, context: &Json, loader: &mut L) -> (r: Result<Json, Error<L::Error>>)
        ensures
            well_caused::<_, L>(r, found_by(*old(loader))),
            forall|u: Seq<char>| #[trigger] final(loader).found(u) == old(loader).found(u),
            match r {
                Ok(j) => compacted(
                    self.content(),
                    self.location(),
                    context@,
                    found_by(*old(loader)),
                    Options::default_options(),
                ) == Ok::<JsonView, ErrorCode>(j@),
                Err(e) => compacted(
                    self.content(),
                    self.location(),
                    context@,
                    found_by(*old(loader)),
                    Options::default_options(),
                ) == Err::<JsonView, ErrorCode>(e.code),
            },
    {
        let base = self.base_url();
        self.compact_with(&base, context, loader, Options::default())
    }
}

/// Default JSON document implementation.
impl Document for Json {
    open spec fn content(&self) -> JsonView {
        self@
    }

    open spec fn location(&self) -> Option<Seq<char>> {
        None
    }

    /// Returns `None`.
    ///
    /// Use [`RemoteDocument`] to attach a base URL to a `Json` document.
    fn base_url(&self) -> (r: Option<IriBuf>) {
        None
    }

    fn expand_with<L: Loader>(&self, base_url: &Option<IriBuf>, context: &ActiveContext, loader: &mut L) -> (r:
        Result<ExpandedDocument, Error<L::Error>>) {
        expand(context, self, base_url, loader)
    }
}

/// A Remote document is a document.
impl<D: Document> Document for RemoteDocument<D> {
    open spec fn content(&self) -> JsonView {
        self.content().content()
    }

    open spec fn location(&self) -> Option<Seq<char>> {
        Some(self.url()@)
    }

    fn base_url(&self) -> (r: Option<IriBuf>) {
        Some(self.base_url().clone())
    }

    fn expand_with<L: Loader>(&self, base_url: &Option<IriBuf>, context: &ActiveContext, loader: &mut L) -> (r:
        Result<ExpandedDocument, Error<L::Error>>) {
        self.document().expand_with(base_url, context, loader)
    }
}

} // verus!
