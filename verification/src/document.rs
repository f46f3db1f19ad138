//! Documents: ordered sentences of a source text, with where the text came from.

use crate::error::{CorporeumError, ErrorView, not_found_text};
use crate::ident::{find, Identified, idents, next_free, next_id, position};
use crate::model::{Alike, all_alike, views};
use crate::sentence::{Sentence, SentenceView, Source};
use crate::text::{as_text, same_opt_text, str_text_of, text_of};
use vstd::prelude::*;

verus! {

/// Represents a document.
///
/// A document is created by its corpus, see
/// [`create_doc()`](crate::corpus::Corpus::create_doc), filled with sentences, and then
/// committed with [`add_doc()`](crate::corpus::Corpus::add_doc).
#[derive(Debug)]
pub struct Document {
    description: Option<String>,
    id: u32,
    sentences: Vec<Sentence<Source>>,
    source: Option<String>,
}

/// What a document holds, as mathematical values.
#[verifier::ext_equal]
pub struct DocumentView {
    pub description: Option<Seq<char>>,
    pub id: u32,
    pub sentences: Seq<SentenceView>,
    pub source: Option<Seq<char>>,
}

impl DocumentView {
    /// A document that holds nothing yet.
    pub open spec fn empty(id: u32) -> DocumentView {
        DocumentView { description: None, id, sentences: Seq::empty(), source: None }
    }

    /// The ids of the sentences, in order.
    pub open spec fn sentence_ids(self) -> Seq<u32> {
        Seq::new(self.sentences.len(), |i: int| self.sentences[i].id)
    }
}

impl View for Document {
    type V = DocumentView;

    closed spec fn view(&self) -> DocumentView {
        DocumentView {
            description: text_of(self.description),
            id: self.id,
            sentences: views(self.sentences@),
            source: text_of(self.source),
        }
    }
}

impl Identified for Document {
    open spec fn ident(&self) -> u32 {
        self@.id
    }

    fn id(&self) -> (id: u32) {
        self.id
    }
}

impl Alike for Document {
    fn alike(&self, other: &Self) -> (same: bool) {
        self.id == other.id && same_opt_text(&self.description, &other.description)
            && same_opt_text(&self.source, &other.source) && all_alike(
            &self.sentences,
            &other.sentences,
        )
    }
}

impl PartialEq for Document {
    fn eq(&self, other: &Self) -> (same: bool) {
        self.alike(other)
    }
}

impl vstd::std_specs::cmp::PartialEqSpecImpl for Document {
    open spec fn obeys_eq_spec() -> bool {
        true
    }

    open spec fn eq_spec(&self, other: &Self) -> bool {
        self@ == other@
    }
}

impl Eq for Document {

}

impl Document {
    /// A document that holds nothing yet.
    pub(crate) fn new(id: u32) -> (doc: Self)
        ensures
            doc@ == DocumentView::empty(id),
    {
        let doc = Self { id, source: None, description: None, sentences: Vec::new() };
        assert(doc@.sentences =~= Seq::empty());
        doc
    }

    /// A document made of the given parts, none of them looked at.
    pub(crate) fn from_parts(
        id: u32,
        source: Option<String>,
        description: Option<String>,
        sentences: Vec<Sentence<Source>>,
    ) -> (doc: Self)
        ensures
            doc@ == (DocumentView {
                description: text_of(description),
                id,
                sentences: views(sentences@),
                source: text_of(source),
            }),
    {
        Self { id, source, description, sentences }
    }

    /// Return the ID of this document.
    pub fn get_doc_id(&self) -> (id: u32)
        ensures
            id == self@.id,
    {
        self.id
    }

    /// Where the text of this document came from, if that is recorded.
    pub fn source(&self) -> (source: Option<&str>)
        ensures
            str_text_of(source) == self@.source,
    {
        as_text(&self.source)
    }

    /// Records where the text of this document came from; nothing else changes.
    pub fn set_source(&mut self, source: &str)
        ensures
            final(self)@ == (DocumentView { source: Some(source@), ..old(self)@ }),
    {
        self.source = Some(source.to_owned());
    }

    /// What is said of this document, if anything.
    pub fn description(&self) -> (description: Option<&str>)
        ensures
            str_text_of(description) == self@.description,
    {
        as_text(&self.description)
    }

    /// Records what is said of this document; nothing else changes.
    pub fn set_description(&mut self, description: &str)
        ensures
            final(self)@ == (DocumentView { description: Some(description@), ..old(self)@ }),
    {
        self.description = Some(description.to_owned());
    }

    /// Creates a new `Sentence` with a proper unique id and its language set to `lang`.
    ///
    /// To add this sentence to this document, use [`add_sentence()`](Self::add_sentence).
    /// The document itself is not changed.
    pub fn create_sentence(&mut self, lang: &str) -> (sentence: Sentence<Source>)
        requires
            next_id(old(self)@.sentence_ids()) <= u32::MAX,
        ensures
            sentence@ == SentenceView::empty(next_id(old(self)@.sentence_ids()) as u32, lang@),
            *final(self) == *old(self),
    {
        assert(idents(self.sentences@) =~= self@.sentence_ids());
        Sentence::<Source>::new(next_free(&self.sentences), lang)
    }

    /// Add a [`Sentence`] to the document, unless it has no tokens.
    ///
    /// To create a new [`Sentence`], use [`create_sentence()`](Self::create_sentence).
    ///
    /// # Errors
    /// This will return an error, and change nothing, if the sentence has no tokens in it.
    pub fn add_sentence(&mut self, sent: Sentence<Source>) -> (r: Result<(), CorporeumError>)
        ensures
            match r {
                Ok(()) => {
                    &&& sent@.tokens.len() > 0
                    &&& final(self)@ == (DocumentView {
                        sentences: old(self)@.sentences.push(sent@),
                        ..old(self)@
                    })
                },
                Err(e) => {
                    &&& sent@.tokens.len() == 0
                    &&& e@ == ErrorView::EmptyObject("Sentence has no tokens in it"@)
                    &&& *final(self) == *old(self)
                },
            },
    {
        if sent.tokens().is_empty() {
            return Err(CorporeumError::empty_object("Sentence has no tokens in it"));
        }
        self.sentences.push(sent);
        assert(self@.sentences =~= old(self)@.sentences.push(sent@));
        Ok(())
    }

    /// Removes the first sentence that bears `id`, with all that it owns.
    ///
    /// # Errors
    /// This will return an error, and change nothing, if no sentence bears `id`.
    pub fn remove_sentence(&mut self, id: usize) -> (r: Result<(), CorporeumError>)
        ensures
            match r {
                Ok(()) => {
                    &&& id <= u32::MAX
                    &&& position(old(self)@.sentence_ids(), id as u32) matches Some(i)
                    &&& final(self)@ == (DocumentView {
                        sentences: old(self)@.sentences.remove(i),
                        ..old(self)@
                    })
                },
                Err(e) => {
                    &&& id > u32::MAX || position(old(self)@.sentence_ids(), id as u32) is None
                    &&& e@ == ErrorView::ElementNotFound(not_found_text("Sentence"@, id as nat))
                    &&& *final(self) == *old(self)
                },
            },
    {
        assert(idents(self.sentences@) =~= self@.sentence_ids());
        if id <= u32::MAX as usize {
            if let Some(i) = find(&self.sentences, id as u32) {
                self.sentences.remove(i);
                assert(self@.sentences =~= old(self)@.sentences.remove(i as int));
                return Ok(());
            }
        }
        Err(CorporeumError::not_found("Sentence", id as u64))
    }

    /// Get a reference to a vector containing all sentences in this `Document`.
    pub fn get_sentences(&self) -> (sentences: &Vec<Sentence<Source>>)
        ensures
            views(sentences@) == self@.sentences,
    {
        &self.sentences
    }

    /// Fetch the first sentence that bears `id` and return a reference to it if it exists.
    pub fn get_sentence(&self, id: u32) -> (r: Option<&Sentence<Source>>)
        ensures
            match r {
                Some(s) => {
                    &&& position(self@.sentence_ids(), id) matches Some(i)
                    &&& s@ == self@.sentences[i]
                },
                None => position(self@.sentence_ids(), id) is None,
            },
    {
        assert(idents(self.sentences@) =~= self@.sentence_ids());
        match find(&self.sentences, id) {
            Some(i) => Some(&self.sentences[i]),
            None => None,
        }
    }

    /// Fetch the first sentence that bears `id`, to be edited in place, if it exists.
    pub fn get_sentence_mut(&mut self, id: u32) -> (r: Option<&mut Sentence<Source>>)
        ensures
            match r {
                Some(s) => {
                    &&& position(old(self)@.sentence_ids(), id) matches Some(i)
                    &&& s@ == old(self)@.sentences[i]
                    &&& final(self)@ =~= (DocumentView {
                        sentences: old(self)@.sentences.update(i, final(s)@),
                        ..old(self)@
                    })
                },
                None => {
                    &&& position(old(self)@.sentence_ids(), id) is None
                    &&& *final(self) == *old(self)
                },
            },
    {
        assert(idents(self.sentences@) =~= self@.sentence_ids());
        match find(&self.sentences, id) {
            Some(i) => Some(&mut self.sentences[i]),
            None => None,
        }
    }
}

} // verus!
