//! The corpus: the root that owns the documents and the metadata.

use crate::codec::{decode, encode, image, restored, saves};
use crate::compression::Compression;
use crate::document::{Document, DocumentView};
use crate::format::Format;
use crate::error::{CorporeumError, ErrorView, not_found_text};
use crate::ident::{find, idents, next_free, next_id, position};
use crate::model::{Alike, all_alike, views};
use crate::metadata::{Metadata, MetadataView};
use vstd::prelude::*;

verus! {

/// Represents a text corpus.
#[derive(Debug)]
pub struct Corpus {
    metadata: Option<Metadata>,
    documents: Vec<Document>,
}

/// What a corpus holds, as mathematical values.
#[verifier::ext_equal]
pub struct CorpusView {
    pub metadata: Option<MetadataView>,
    pub documents: Seq<DocumentView>,
}

/// What optional metadata holds, as mathematical values.
pub open spec fn metadata_view(metadata: Option<Metadata>) -> Option<MetadataView> {
    match metadata {
        Some(m) => Some(m@),
        None => None,
    }
}

/// The compression that a flag asks for: zlib if it is set, none if not.
pub open spec fn zlib_if(compression: bool) -> Option<Compression> {
    if compression {
        Some(Compression::Flate2)
    } else {
        None
    }
}

impl CorpusView {
    /// A corpus that holds nothing.
    pub open spec fn empty() -> CorpusView {
        CorpusView { metadata: None, documents: Seq::empty() }
    }

    /// The ids of the documents, in order.
    pub open spec fn doc_ids(self) -> Seq<u32> {
        Seq::new(self.documents.len(), |i: int| self.documents[i].id)
    }

    /// The metadata, where there is any, names no author twice.
    pub open spec fn wf(self) -> bool {
        self.metadata matches Some(m) ==> m.wf()
    }
}

impl View for Corpus {
    type V = CorpusView;

    closed spec fn view(&self) -> CorpusView {
        CorpusView { metadata: metadata_view(self.metadata), documents: views(self.documents@) }
    }
}

impl Alike for Corpus {
    fn alike(&self, other: &Self) -> (same: bool) {
        let same_metadata = match (&self.metadata, &other.metadata) {
            (Some(a), Some(b)) => a.alike(b),
            (None, None) => true,
            _ => false,
        };
        same_metadata && all_alike(&self.documents, &other.documents)
    }
}

impl PartialEq for Corpus {
    fn eq(&self, other: &Self) -> (same: bool) {
        self.alike(other)
    }
}

impl vstd::std_specs::cmp::PartialEqSpecImpl for Corpus {
    open spec fn obeys_eq_spec() -> bool {
        true
    }

    open spec fn eq_spec(&self, other: &Self) -> bool {
        self@ == other@
    }
}

impl Eq for Corpus {

}

impl Default for Corpus {
    fn default() -> (corpus: Self)
        ensures
            corpus@ == CorpusView::empty(),
    {
        Corpus::new()
    }
}

impl Corpus {
    /// Creates a new empty `Corpus`, in memory only.
    pub fn new() -> (corpus: Self)
        ensures
            corpus@ == CorpusView::empty(),
    {
        let corpus = Self { metadata: None, documents: Vec::new() };
        assert(corpus@.documents =~= Seq::empty());
        corpus
    }

    /// A corpus made of the given parts, none of them looked at.
    pub(crate) fn from_parts(metadata: Option<Metadata>, documents: Vec<Document>) -> (corpus:
        Self)
        ensures
            corpus@ == (CorpusView {
                metadata: metadata_view(metadata),
                documents: views(documents@),
            }),
    {
        Self { metadata, documents }
    }

    /// Load an already existing corpus from the bytes of a JSON text.
    /// If the text is compressed, `compression` must be set to `true`, otherwise `false`.
    ///
    /// # Errors
    /// This will return an error if:
    /// - The contents could not be decompressed.
    /// - The contents could not be deserialized.
    pub fn load(source: &[u8], compression: bool) -> (r: Result<Self, CorporeumError>)
        ensures
            match r {
                Ok(corpus) => restored(source@, Format::Json, zlib_if(compression)) matches Ok(c)
                    && c == corpus@ && corpus@.wf(),
                Err(e) => restored(source@, Format::Json, zlib_if(compression)) matches Err(f) && f
                    == e@,
            },
    {
        decode(
            source,
            Format::Json,
            if compression {
                Some(Compression::Flate2)
            } else {
                None
            },
        )
    }

    /// Save the corpus as the bytes of a JSON text, indented if `pretty` and compressed
    /// if `compression`.
    ///
    /// The outcome depends on what the corpus holds and on the two flags alone: saving
    /// succeeds exactly where [`saves`] holds, and then hands out the bytes of [`image`].
    /// [`load`](Self::load) reads the corpus back out of them.
    ///
    /// # Errors
    /// This will return an error if:
    /// - The serialization fails
    /// - Compression fails
    pub fn save_stream(&self, compression: bool, pretty: bool) -> (r: Result<
        Vec<u8>,
        CorporeumError,
    >)
        ensures
            r is Ok <==> saves(self@, Format::Json, zlib_if(compression), pretty),
            match r {
                Ok(bytes) => {
                    &&& image(self@, Format::Json, zlib_if(compression), pretty) matches Ok(made)
                        && made == bytes@
                    &&& self@.wf() ==> (restored(bytes@, Format::Json, zlib_if(compression))
                        matches Ok(c) && c == self@)
                },
                Err(e) => image(self@, Format::Json, zlib_if(compression), pretty) matches Err(why)
                    && why == e@,
            },
    {
        encode(
            self,
            Format::Json,
            if compression {
                Some(Compression::Flate2)
            } else {
                None
            },
            pretty,
        )
    }

    /// Save the corpus behind what `dest` holds already, as [`save_stream`](Self::save_stream)
    /// writes it.
    ///
    /// Saving succeeds exactly where [`saves`] holds. What is then put behind `dest` are
    /// the bytes of [`image`], out of which [`load`](Self::load) reads the corpus back.
    ///
    /// # Errors
    /// This will return an error, and leave `dest` as it was, if:
    /// - The serialization fails
    /// - Compression fails
    pub fn save_into(&self, dest: &mut Vec<u8>, compression: bool, pretty: bool) -> (r: Result<
        (),
        CorporeumError,
    >)
        ensures
            r is Ok <==> saves(self@, Format::Json, zlib_if(compression), pretty),
            match r {
                Ok(()) => {
                    &&& image(self@, Format::Json, zlib_if(compression), pretty) matches Ok(made)
                    &&& final(dest)@ == old(dest)@ + made
                    &&& self@.wf() ==> (restored(made, Format::Json, zlib_if(compression))
                        matches Ok(c) && c == self@)
                },
                Err(e) => {
                    &&& final(dest)@ == old(dest)@
                    &&& image(self@, Format::Json, zlib_if(compression), pretty) matches Err(why)
                        && why == e@
                },
            },
    {
        let mut bytes = self.save_stream(compression, pretty)?;
        dest.append(&mut bytes);
        Ok(())
    }

    /// Return a reference to Metadata.
    pub fn get_metadata(&self) -> (metadata: Option<&Metadata>)
        ensures
            match metadata {
                Some(m) => self@.metadata == Some(m@),
                None => self@.metadata is None,
            },
    {
        self.metadata.as_ref()
    }

    /// Return a mutable reference to Metadata.
    pub fn get_metadata_mut(&mut self) -> (metadata: Option<&mut Metadata>)
        ensures
            match metadata {
                Some(m) => {
                    &&& old(self)@.metadata == Some(m@)
                    &&& final(self)@ =~= (CorpusView {
                        metadata: Some(final(m)@),
                        ..old(self)@
                    })
                },
                None => {
                    &&& old(self)@.metadata is None
                    &&& *final(self) == *old(self)
                },
            },
    {
        self.metadata.as_mut()
    }

    /// Adds metadata to corpus, in place of any it had.
    /// - `name` - corpus name
    pub fn add_metadata(&mut self, name: &str)
        ensures
            final(self)@ == (CorpusView {
                metadata: Some(MetadataView::named(name@)),
                ..old(self)@
            }),
    {
        self.metadata = Some(Metadata::new(name));
    }

    /// Return a list of documents in the corpus.
    pub fn get_docs(&self) -> (docs: &Vec<Document>)
        ensures
            views(docs@) == self@.documents,
    {
        &self.documents
    }

    /// Return a mutable reference to documents in the corpus.
    pub fn get_docs_mut(&mut self) -> (docs: &mut Vec<Document>)
        ensures
            views(docs@) == old(self)@.documents,
            final(self)@ == (CorpusView { documents: views(final(docs)@), ..old(self)@ }),
    {
        &mut self.documents
    }

    /// Fetch the first document that bears `id` and return a reference to it.
    /// Returns `None` if the document does not exist in the corpus.
    pub fn get_doc(&self, id: u32) -> (r: Option<&Document>)
        ensures
            match r {
                Some(d) => {
                    &&& position(self@.doc_ids(), id) matches Some(i)
                    &&& d@ == self@.documents[i]
                },
                None => position(self@.doc_ids(), id) is None,
            },
    {
        assert(idents(self.documents@) =~= self@.doc_ids());
        match find(&self.documents, id) {
            Some(i) => Some(&self.documents[i]),
            None => None,
        }
    }

    /// Fetch the first document that bears `id` and return a mutable reference to it.
    /// Returns `None` if the document does not exist in the corpus.
    pub fn get_doc_mut(&mut self, id: u32) -> (r: Option<&mut Document>)
        ensures
            match r {
                Some(d) => {
                    &&& position(old(self)@.doc_ids(), id) matches Some(i)
                    &&& d@ == old(self)@.documents[i]
                    &&& final(self)@ =~= (CorpusView {
                        documents: old(self)@.documents.update(i, final(d)@),
                        ..old(self)@
                    })
                },
                None => {
                    &&& position(old(self)@.doc_ids(), id) is None
                    &&& *final(self) == *old(self)
                },
            },
    {
        assert(idents(self.documents@) =~= self@.doc_ids());
        match find(&self.documents, id) {
            Some(i) => Some(&mut self.documents[i]),
            None => None,
        }
    }

    /// Creates a new empty document with a proper unique id.
    ///
    /// This new document can then be added to this corpus using [`add_doc`](Self::add_doc).
    /// The corpus itself is not changed.
    pub fn create_doc(&mut self) -> (doc: Document)
        requires
            next_id(old(self)@.doc_ids()) <= u32::MAX,
        ensures
            doc@ == DocumentView::empty(next_id(old(self)@.doc_ids()) as u32),
            *final(self) == *old(self),
    {
        assert(idents(self.documents@) =~= self@.doc_ids());
        Document::new(next_free(&self.documents))
    }

    /// Adds the specified document to the corpus, unless it has no sentences.
    ///
    /// To create a [`Document`] with a proper unique id, use
    /// [`create_doc()`](Self::create_doc).
    ///
    /// # Errors
    /// This will return an error, and change nothing, if the document has no sentences in it.
    pub fn add_doc(&mut self, doc: Document) -> (r: Result<(), CorporeumError>)
        ensures
            match r {
                Ok(()) => {
                    &&& doc@.sentences.len() > 0
                    &&& final(self)@ == (CorpusView {
                        documents: old(self)@.documents.push(doc@),
                        ..old(self)@
                    })
                },
                Err(e) => {
                    &&& doc@.sentences.len() == 0
                    &&& e@ == ErrorView::EmptyObject("Document has no sentences in it"@)
                    &&& *final(self) == *old(self)
                },
            },
    {
        if doc.get_sentences().is_empty() {
            return Err(CorporeumError::empty_object("Document has no sentences in it"));
        }
        self.documents.push(doc);
        assert(self@.documents =~= old(self)@.documents.push(doc@));
        Ok(())
    }

    /// Removes the first document that bears `id`, with all that it owns.
    ///
    /// # Errors
    /// This will return an error, and change nothing, if no document bears `id`.
    pub fn remove_document(&mut self, id: u32) -> (r: Result<(), CorporeumError>)
        ensures
            match r {
                Ok(()) => {
                    &&& position(old(self)@.doc_ids(), id) matches Some(i)
                    &&& final(self)@ == (CorpusView {
                        documents: old(self)@.documents.remove(i),
                        ..old(self)@
                    })
                },
                Err(e) => {
                    &&& position(old(self)@.doc_ids(), id) is None
                    &&& e@ == ErrorView::ElementNotFound(not_found_text("Document"@, id as nat))
                    &&& *final(self) == *old(self)
                },
            },
    {
        assert(idents(self.documents@) =~= self@.doc_ids());
        match find(&self.documents, id) {
            Some(i) => {
                self.documents.remove(i);
                assert(self@.documents =~= old(self)@.documents.remove(i as int));
                Ok(())
            },
            None => Err(CorporeumError::not_found("Document", id as u64)),
        }
    }
}

} // verus!
