//! A rendering of a sentence, built in one step from words that are already split.

use crate::model::views;
use crate::token::{Token, TokenView};
use vstd::prelude::*;

verus! {

/// The part a sentence plays, as a value.
#[derive(Debug, Clone, Copy, PartialEq, Eq, Structural)]
pub enum SentenceType {
    /// A sentence of the text a document holds.
    Source,
    /// A sentence that renders another one in a different language.
    Target,
}

/// Represents a translation that carries its role with it.
#[derive(Debug)]
pub struct Translation {
    lang: String,
    id: u32,
    sentence_type: SentenceType,
    tokens: Vec<Token>,
}

/// What such a translation holds, as mathematical values.
#[verifier::ext_equal]
pub struct TaggedView {
    pub lang: Seq<char>,
    pub id: u32,
    pub sentence_type: SentenceType,
    pub tokens: Seq<TokenView>,
}

impl View for Translation {
    type V = TaggedView;

    closed spec fn view(&self) -> TaggedView {
        TaggedView {
            lang: self.lang@,
            id: self.id,
            sentence_type: self.sentence_type,
            tokens: views(self.tokens@),
        }
    }
}

/// The tokens that words make when they are numbered from 0 in their order.
pub open spec fn numbered(words: Seq<&str>) -> Seq<TokenView> {
    Seq::new(words.len(), |i: int| TokenView::bare(i as u32, words[i]@))
}

impl Translation {
    /// The id of this translation.
    pub fn get_translation_id(&self) -> (id: u32)
        ensures
            id == self@.id,
    {
        self.id
    }

    /// A translation in the language `lang` whose tokens are the given words, numbered
    /// from 0 in their order. There must not be more words than there are ids.
    pub fn new(id: u32, tokens: &Vec<&str>, lang: &str, sent_type: SentenceType) -> (t: Self)
        requires
            tokens@.len() <= u32::MAX + 1,
        ensures
            t@ == (TaggedView {
                lang: lang@,
                id,
                sentence_type: sent_type,
                tokens: numbered(tokens@),
            }),
    {
        let mut words: Vec<Token> = Vec::with_capacity(tokens.len());
        let mut i: usize = 0;
        while i < tokens.len()
            invariant
                i <= tokens.len(),
                tokens@.len() <= u32::MAX + 1,
                words.len() == i,
                forall|j: int|
                    0 <= j < i ==> (#[trigger] words@[j])@ == TokenView::bare(j as u32, tokens@[j]@),
            decreases tokens.len() - i,
        {
            words.push(Token::new(i as u32, tokens[i]));
            i += 1;
        }
        assert(views(words@) =~= numbered(tokens@));
        Self { lang: lang.to_owned(), id, sentence_type: sent_type, tokens: words }
    }

    /// The language tag of this translation.
    pub fn lang(&self) -> (lang: &str)
        ensures
            lang@ == self@.lang,
    {
        self.lang.as_str()
    }

    /// The part that this translation plays.
    pub fn sentence_type(&self) -> (role: SentenceType)
        ensures
            role == self@.sentence_type,
    {
        self.sentence_type
    }

    /// The tokens of this translation, in order.
    pub fn tokens(&self) -> (tokens: &Vec<Token>)
        ensures
            views(tokens@) == self@.tokens,
    {
        &self.tokens
    }
}

} // verus!
