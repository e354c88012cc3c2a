//! Loading of remote documents.

use vstd::prelude::*;
use vstd::string::*;

use crate::error::{Error, ErrorCode};
use crate::iri::IriBuf;
use crate::json::{clone_json, Json, JsonView};
use crate::text::text_eq;

verus! {

/// A document together with the IRI that it was found at.
pub struct RemoteDocument<D> {
    base_url: IriBuf,
    doc: D,
}

impl<D> RemoteDocument<D> {
    /// The IRI that the document was found at.
    pub closed spec fn url(&self) -> IriBuf {
        self.base_url
    }

    /// The document.
    pub closed spec fn content(&self) -> D {
        self.doc
    }

    /// Create a new remote document from the document contents and base URL.
    pub fn new(doc: D, base_url: IriBuf) -> (r: RemoteDocument<D>)
        ensures
            r.content() == doc,
            r.url() == base_url,
    {
        RemoteDocument { base_url, doc }
    }

    /// Consume the remote document and return the inner document.
    pub fn into_document(self) -> (r: D)
        ensures
            r == self.content(),
    {
        self.doc
    }

    /// Consume the remote document and return the inner document along with its base URL.
    pub fn into_parts(self) -> (r: (D, IriBuf))
        ensures
            r.0 == self.content(),
            r.1 == self.url(),
    {
        (self.doc, self.base_url)
    }

    /// The IRI that the document was found at.
    pub fn base_url(&self) -> (r: &IriBuf)
        ensures
            *r == self.url(),
    {
        &self.base_url
    }

    /// The document.
    pub fn document(&self) -> (r: &D)
        ensures
            *r == self.content(),
    {
        &self.doc
    }

    /// Puts `doc` in the place of the document and hands the former one back.
    pub fn replace_document(&mut self, doc: D) -> (r: D)
        ensures
            r == old(self).content(),
            final(self).content() == doc,
            final(self).url() == old(self).url(),
    {
        let mut doc = doc;
        std::mem::swap(&mut self.doc, &mut doc);
        doc
    }
}

/// The failure to load the document at an IRI, which it carries.
pub struct CannotLoad<I>(pub I);

impl CannotLoad<IriBuf> {
    /// What the message of this failure holds.
    pub open spec fn message_text(&self) -> Seq<char> {
        "cannot load `"@ + self.0@ + "`"@
    }

    /// The failure in words.
    pub fn message(&self) -> (r: String)
        ensures
            r@ == self.message_text(),
    {
        let mut s = String::from_str("cannot load `");
        s.append(self.0.as_str());
        s.append("`");
        s
    }
}

/// What fetches remote documents.
///
/// A loader answers for an IRI with the document that it found, and the IRI
/// that it found it at, or with a failure. It answers the same whenever it
/// is asked again.
pub trait Loader {
    /// What the loader fails with.
    type Error;

    /// The IRI and the content of the document that the loader finds for `url`, if it finds one.
    spec fn found(&self, url: Seq<char>) -> Option<(Seq<char>, JsonView)>;

    /// Whether `e` is a failure that the loader gives for `url`.
    spec fn fails_with(url: Seq<char>, e: Self::Error) -> bool;

    /// Loads the document at `url`.
    fn load(&mut self, url: &IriBuf) -> (r: Result<RemoteDocument<Json>, Self::Error>)
        ensures
            match r {
                Ok(d) => old(self).found(url@) == Some((d.url()@, d.content()@)),
                Err(e) => old(self).found(url@) is None && Self::fails_with(url@, e),
            },
            forall|u: Seq<char>| #[trigger] final(self).found(u) == old(self).found(u),
    ;
}

/// Dummy loader.
///
/// A dummy loader that does not load anything.
/// Can be useful when you know that you will never need to load remote resource.
///
/// Fails with `CannotLoad` at every attempt to load a resource.
#[derive(Debug, Default)]
pub struct NoLoader;

impl Loader for NoLoader {
    type Error = CannotLoad<IriBuf>;

    open spec fn found(&self, url: Seq<char>) -> Option<(Seq<char>, JsonView)> {
        None
    }

    open spec fn fails_with(url: Seq<char>, e: CannotLoad<IriBuf>) -> bool {
        e.0@ == url
    }

    fn load(&mut self, url: &IriBuf) -> (r: Result<RemoteDocument<Json>, CannotLoad<IriBuf>>)
        ensures
            r matches Err(e) && e.0@ == url@,
    {
        Err(CannotLoad(url.clone()))
    }
}

/// What is found for `url` among the documents from `k` on: the first that is kept for it.
pub open spec fn found_among(docs: Seq<(IriBuf, RemoteDocument<Json>)>, url: Seq<char>, k: int) -> Option<
    (Seq<char>, JsonView),
>
    decreases docs.len() - k,
{
    if k < 0 || k >= docs.len() {
        None
    } else if docs[k].0@ == url {
        Some((docs[k].1.url()@, docs[k].1.content()@))
    } else {
        found_among(docs, url, k + 1)
    }
}

/// What is found among documents with one more at the end: what was
/// found before, or else the new one where it is kept for the IRI.
pub proof fn lemma_found_among_pushed(
    docs: Seq<(IriBuf, RemoteDocument<Json>)>,
    x: (IriBuf, RemoteDocument<Json>),
    url: Seq<char>,
    k: int,
)
    requires
        0 <= k <= docs.len(),
    ensures
        found_among(docs.push(x), url, k) == (if found_among(docs, url, k) is Some {
            found_among(docs, url, k)
        } else if x.0@ == url {
            Some((x.1.url()@, x.1.content()@))
        } else {
            None
        }),
    decreases docs.len() - k,
{
    let all = docs.push(x);
    if k == docs.len() {
        assert(all[k] == x);
        assert(found_among(all, url, k + 1) is None);
    } else {
        assert(all[k] == docs[k]);
        lemma_found_among_pushed(docs, x, url, k + 1);
    }
}

/// A loader that answers with the documents that it was given, and with
/// `CannotLoad` for every other IRI.
pub struct Preloaded {
    /// The documents, each with the IRI that it is kept for.
    pub documents: Vec<(IriBuf, RemoteDocument<Json>)>,
}

impl Preloaded {
    /// The loader that holds no document.
    pub fn new() -> (r: Preloaded)
        ensures
            forall|u: Seq<char>| #[trigger] r.found(u) is None,
    {
        Preloaded { documents: Vec::new() }
    }

    /// Whether a document is kept for `url`.
    pub fn has(&self, url: &IriBuf) -> (r: bool)
        ensures
            r == self.found(url@) is Some,
    {
        let mut i: usize = 0;
        while i < self.documents.len()
            invariant
                i <= self.documents.len(),
                self.found(url@) == found_among(self.documents@, url@, i as int),
            decreases self.documents.len() - i,
        {
            if text_eq(self.documents[i].0.as_str(), url.as_str()) {
                return true;
            }
            i = i + 1;
        }
        false
    }

    /// Keeps `document` for `url`, unless a document is kept for it already.
    pub fn insert(&mut self, url: IriBuf, document: RemoteDocument<Json>)
        ensures
            forall|u: Seq<char>| #[trigger]
                final(self).found(u) == (if old(self).found(u) is Some {
                    old(self).found(u)
                } else if url@ == u {
                    Some((document.url()@, document.content()@))
                } else {
                    None
                }),
    {
        let ghost before = self.documents@;
        self.documents.push((url, document));
        proof {
            assert forall|u: Seq<char>| #[trigger]
                self.found(u) == (if found_among(before, u, 0) is Some {
                    found_among(before, u, 0)
                } else if url@ == u {
                    Some((document.url()@, document.content()@))
                } else {
                    None
                }) by {
                lemma_found_among_pushed(before, (url, document), u, 0);
            }
        }
    }
}

impl Loader for Preloaded {
    type Error = CannotLoad<IriBuf>;

    open spec fn found(&self, url: Seq<char>) -> Option<(Seq<char>, JsonView)> {
        found_among(self.documents@, url, 0)
    }

    open spec fn fails_with(url: Seq<char>, e: CannotLoad<IriBuf>) -> bool {
        e.0@ == url
    }

    fn load(&mut self, url: &IriBuf) -> (r: Result<RemoteDocument<Json>, CannotLoad<IriBuf>>) {
        let mut i: usize = 0;
        while i < self.documents.len()
            invariant
                i <= self.documents.len(),
                *self == *old(self),
                self.found(url@) == found_among(self.documents@, url@, i as int),
            decreases self.documents.len() - i,
        {
            if text_eq(self.documents[i].0.as_str(), url.as_str()) {
                let kept = &self.documents[i].1;
                return Ok(RemoteDocument::new(clone_json(kept.document()), kept.base_url().clone()));
            }
            i = i + 1;
        }
        Err(CannotLoad(url.clone()))
    }
}

/// What is to be done after an attempt that fetches nothing by itself.
pub enum Next<T> {
    /// The attempt came to an end with this.
    Done(T),
    /// The document at this IRI is to be fetched, and the attempt made again.
    Fetch(IriBuf),
    /// The attempt failed.
    Failed(ErrorCode),
}

/// What is to be done after an attempt with the documents of `fetched`:
/// where it failed for want of a document that was not fetched yet, that
/// document is to be fetched; where it was fetched and is wanted still,
/// loading has failed.
pub fn next_step<T>(result: Result<T, Error<CannotLoad<IriBuf>>>, fetched: &Preloaded) -> (r: Next<T>)
    ensures
        match result {
            Ok(v) => r == Next::Done(v),
            Err(e) => match e.cause {
                Some(c) => if fetched.found(c.0@) is Some {
                    r == Next::<T>::Failed(ErrorCode::LoadingRemoteContextFailed)
                } else {
                    r == Next::<T>::Fetch(c.0)
                },
                None => r == Next::<T>::Failed(e.code),
            },
        },
{
    match result {
        Ok(v) => Next::Done(v),
        Err(e) => match e.cause {
            Some(c) => if fetched.has(&c.0) {
                Next::Failed(ErrorCode::LoadingRemoteContextFailed)
            } else {
                Next::Fetch(c.0)
            },
            None => Next::Failed(e.code),
        },
    }
}

/// Whether a result says truly what its failure was caused by: where it
/// carries a failure of the loader, it is the failure to load a remote
/// context, and the failure is one that the loader gives for an IRI for
/// which, by `found`, it finds nothing.
pub open spec fn well_caused<T, L: Loader>(
    r: Result<T, Error<L::Error>>,
    found: spec_fn(Seq<char>) -> Option<(Seq<char>, JsonView)>,
) -> bool {
    match r {
        Ok(_) => true,
        Err(e) => match e.cause {
            Some(c) => e.code == ErrorCode::LoadingRemoteContextFailed && exists|u: Seq<char>|
                #[trigger] found(u) is None && L::fails_with(u, c),
            None => true,
        },
    }
}

} // verus!
