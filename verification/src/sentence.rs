//! Sentences: ordered tokens, and for a sentence of the source text the
//! translations that render it.

use crate::error::{CorporeumError, ErrorView, not_found_text};
use crate::ident::{find, Identified, idents, next_free, next_id, position};
use crate::model::{Alike, all_alike, views};
use crate::text::same_text;
use crate::token::{Token, TokenView};
use std::marker::PhantomData;
use vstd::prelude::*;
use vstd::string::StringExecFns;

verus! {

/// The part a sentence plays, which settles what it can own: a sentence of
/// the source text owns translations, a translation owns none.
pub trait Role {
    /// How a sentence in this role keeps its translations.
    type Translations;

    /// The translations kept in `owned`, in order.
    spec fn translations_view(owned: &Self::Translations) -> Seq<TranslationView>;
}

/// Marks a sentence of the text a document holds.
#[derive(Debug, PartialEq, Eq, Structural)]
pub struct Source;

/// Marks a sentence that renders another one in a different language.
#[derive(Debug, PartialEq, Eq, Structural)]
pub struct Target;

impl Role for Source {
    type Translations = Vec<Sentence<Target>>;

    open spec fn translations_view(owned: &Self::Translations) -> Seq<TranslationView> {
        translation_views(owned@)
    }
}

impl Role for Target {
    type Translations = ();

    open spec fn translations_view(owned: &Self::Translations) -> Seq<TranslationView> {
        Seq::empty()
    }
}

/// Represents a sentence.
///
/// A sentence is created by its parent, see
/// [`create_sentence()`](crate::document::Document::create_sentence) and
/// [`create_translation()`](Sentence::create_translation), filled with tokens, and then
/// committed with [`add_sentence()`](crate::document::Document::add_sentence) or
/// [`add_translation()`](Sentence::add_translation).
#[derive(Debug)]
pub struct Sentence<Type: Role> {
    t: PhantomData<Type>,
    id: u32,
    lang: String,
    tokens: Vec<Token>,
    translations: Type::Translations,
}

/// What a translation holds, as mathematical values.
#[verifier::ext_equal]
pub struct TranslationView {
    pub id: u32,
    pub lang: Seq<char>,
    pub tokens: Seq<TokenView>,
}

/// What a sentence holds, as mathematical values.
#[verifier::ext_equal]
pub struct SentenceView {
    pub id: u32,
    pub lang: Seq<char>,
    pub tokens: Seq<TokenView>,
    pub translations: Seq<TranslationView>,
}

impl TranslationView {
    /// The ids of the tokens, in order.
    pub open spec fn token_ids(self) -> Seq<u32> {
        Seq::new(self.tokens.len(), |i: int| self.tokens[i].id)
    }
}

impl SentenceView {
    /// A sentence that holds nothing yet.
    pub open spec fn empty(id: u32, lang: Seq<char>) -> SentenceView {
        SentenceView { id, lang, tokens: Seq::empty(), translations: Seq::empty() }
    }

    /// This sentence as its parent sentence sees it: a translation owns no translations.
    pub open spec fn as_translation(self) -> TranslationView {
        TranslationView { id: self.id, lang: self.lang, tokens: self.tokens }
    }

    /// The ids of the tokens, in order.
    pub open spec fn token_ids(self) -> Seq<u32> {
        Seq::new(self.tokens.len(), |i: int| self.tokens[i].id)
    }

    /// The ids of the translations, in order.
    pub open spec fn translation_ids(self) -> Seq<u32> {
        Seq::new(self.translations.len(), |i: int| self.translations[i].id)
    }
}

/// The forms of `tokens`, in order.
pub open spec fn forms(tokens: Seq<TokenView>) -> Seq<Seq<char>> {
    Seq::new(tokens.len(), |i: int| tokens[i].form)
}

/// The pieces of `parts`, in order, with one space between neighbours.
pub open spec fn spaced(parts: Seq<Seq<char>>) -> Seq<char>
    decreases parts.len(),
{
    if parts.len() == 0 {
        Seq::empty()
    } else if parts.len() == 1 {
        parts[0]
    } else {
        spaced(parts.drop_last()) + " "@ + parts.last()
    }
}

/// The translations in `items` as their parent sees them, in order.
pub open spec fn translation_views(items: Seq<Sentence<Target>>) -> Seq<TranslationView> {
    Seq::new(items.len(), |i: int| items[i]@.as_translation())
}

impl<T: Role> View for Sentence<T> {
    type V = SentenceView;

    /// All that the sentence holds. The marker `t` holds nothing: the part that a sentence
    /// plays is in its type, and shows in the view only in that a translation has no
    /// translations.
    closed spec fn view(&self) -> SentenceView {
        SentenceView {
            id: self.id,
            lang: self.lang@,
            tokens: views(self.tokens@),
            translations: T::translations_view(&self.translations),
        }
    }
}

impl<T: Role> Identified for Sentence<T> {
    open spec fn ident(&self) -> u32 {
        self@.id
    }

    fn id(&self) -> (id: u32) {
        self.id
    }
}

impl Alike for Sentence<Target> {
    fn alike(&self, other: &Self) -> (same: bool) {
        self.id == other.id && same_text(self.lang.as_str(), other.lang.as_str()) && all_alike(
            &self.tokens,
            &other.tokens,
        )
    }
}

impl Alike for Sentence<Source> {
    fn alike(&self, other: &Self) -> (same: bool) {
        proof {
            let a = self.translations@;
            let b = other.translations@;
            if views(a) == views(b) {
                assert(translation_views(a) =~= translation_views(b)) by {
                    assert forall|i: int| 0 <= i < a.len() implies a[i]@.as_translation() == b[i]@.as_translation() by {
                        assert(views(a)[i] == views(b)[i]);
                    }
                }
            }
            if translation_views(a) == translation_views(b) {
                assert(views(a) =~= views(b)) by {
                    assert(translation_views(a).len() == translation_views(b).len());
                    assert forall|i: int| 0 <= i < a.len() implies a[i]@ == b[i]@ by {
                        assert(translation_views(a)[i] == translation_views(b)[i]);
                        assert(a[i]@ =~= b[i]@);
                    }
                }
            }
        }
        self.id == other.id && same_text(self.lang.as_str(), other.lang.as_str()) && all_alike(
            &self.tokens,
            &other.tokens,
        ) && all_alike(&self.translations, &other.translations)
    }
}

impl PartialEq for Sentence<Target> {
    fn eq(&self, other: &Self) -> (same: bool) {
        self.alike(other)
    }
}

impl PartialEq for Sentence<Source> {
    fn eq(&self, other: &Self) -> (same: bool) {
        self.alike(other)
    }
}

impl vstd::std_specs::cmp::PartialEqSpecImpl for Sentence<Target> {
    open spec fn obeys_eq_spec() -> bool {
        true
    }

    open spec fn eq_spec(&self, other: &Self) -> bool {
        self@ == other@
    }
}

impl vstd::std_specs::cmp::PartialEqSpecImpl for Sentence<Source> {
    open spec fn obeys_eq_spec() -> bool {
        true
    }

    open spec fn eq_spec(&self, other: &Self) -> bool {
        self@ == other@
    }
}

impl Eq for Sentence<Target> {

}

impl Eq for Sentence<Source> {

}

impl Sentence<Source> {
    /// A sentence of the source text that holds nothing yet.
    pub(crate) fn new(id: u32, lang: &str) -> (s: Self)
        ensures
            s@ == SentenceView::empty(id, lang@),
    {
        let s = Self {
            t: PhantomData,
            id,
            lang: lang.to_owned(),
            tokens: Vec::new(),
            translations: Vec::new(),
        };
        assert(s@.tokens =~= Seq::empty());
        assert(s@.translations =~= Seq::empty());
        s
    }

    /// A sentence of the source text made of the given parts, none of them looked at.
    pub(crate) fn from_parts(
        id: u32,
        lang: String,
        tokens: Vec<Token>,
        translations: Vec<Sentence<Target>>,
    ) -> (s: Self)
        ensures
            s@ == (SentenceView {
                id,
                lang: lang@,
                tokens: views(tokens@),
                translations: translation_views(translations@),
            }),
    {
        Self { t: PhantomData, id, lang, tokens, translations }
    }

    /// Creates a new translation with a proper unique id.
    ///
    /// To add this translation to this sentence, use
    /// [`add_translation()`](Self::add_translation). The sentence itself is not changed.
    pub fn create_translation(&self, lang: &str) -> (translation: Sentence<Target>)
        requires
            next_id(self@.translation_ids()) <= u32::MAX,
        ensures
            translation@ == SentenceView::empty(next_id(self@.translation_ids()) as u32, lang@),
    {
        assert(idents(self.translations@) =~= self@.translation_ids());
        Sentence::<Target>::new(next_free(&self.translations), lang)
    }

    /// Adds a translation, unless it has no tokens.
    ///
    /// To create a new translation, use [`create_translation()`](Self::create_translation).
    ///
    /// # Errors
    /// This will return an error, and change nothing, if the translation has no tokens in it.
    pub fn add_translation(&mut self, translation: Sentence<Target>) -> (r: Result<
        (),
        CorporeumError,
    >)
        ensures
            match r {
                Ok(()) => {
                    &&& translation@.tokens.len() > 0
                    &&& final(self)@ == (SentenceView {
                        translations: old(self)@.translations.push(translation@.as_translation()),
                        ..old(self)@
                    })
                },
                Err(e) => {
                    &&& translation@.tokens.len() == 0
                    &&& e@ == ErrorView::EmptyObject("Translation has no tokens in it"@)
                    &&& *final(self) == *old(self)
                },
            },
    {
        if translation.tokens.is_empty() {
            return Err(CorporeumError::empty_object("Translation has no tokens in it"));
        }
        self.translations.push(translation);
        assert(self@.translations =~= old(self)@.translations.push(translation@.as_translation()));
        Ok(())
    }

    /// Removes the first translation that bears `id`.
    ///
    /// # Errors
    /// This will return an error, and change nothing, if no translation bears `id`.
    pub fn remove_translation(&mut self, id: usize) -> (r: Result<(), CorporeumError>)
        ensures
            match r {
                Ok(()) => {
                    &&& id <= u32::MAX
                    &&& position(old(self)@.translation_ids(), id as u32) matches Some(i)
                    &&& final(self)@ == (SentenceView {
                        translations: old(self)@.translations.remove(i),
                        ..old(self)@
                    })
                },
                Err(e) => {
                    &&& id > u32::MAX || position(old(self)@.translation_ids(), id as u32) is None
                    &&& e@ == ErrorView::ElementNotFound(not_found_text("Translation"@, id as nat))
                    &&& *final(self) == *old(self)
                },
            },
    {
        assert(idents(self.translations@) =~= self@.translation_ids());
        if id <= u32::MAX as usize {
            if let Some(i) = find(&self.translations, id as u32) {
                self.translations.remove(i);
                assert(self@.translations =~= old(self)@.translations.remove(i as int));
                return Ok(());
            }
        }
        Err(CorporeumError::not_found("Translation", id as u64))
    }

    /// Fetches the first translation that bears `id`.
    /// Returns `None` if this sentence has no such translation.
    pub fn translation(&self, id: u32) -> (r: Option<&Sentence<Target>>)
        ensures
            match r {
                Some(t) => {
                    &&& position(self@.translation_ids(), id) matches Some(i)
                    &&& t@.as_translation() == self@.translations[i]
                },
                None => position(self@.translation_ids(), id) is None,
            },
    {
        assert(idents(self.translations@) =~= self@.translation_ids());
        match find(&self.translations, id) {
            Some(i) => Some(&self.translations[i]),
            None => None,
        }
    }

    /// Fetches the first translation that bears `id`, to be edited in place.
    /// Returns `None` if this sentence has no such translation.
    pub fn get_translation_mut(&mut self, id: u32) -> (r: Option<&mut Sentence<Target>>)
        ensures
            match r {
                Some(t) => {
                    &&& position(old(self)@.translation_ids(), id) matches Some(i)
                    &&& t@.as_translation() == old(self)@.translations[i]
                    &&& final(self)@ =~= (SentenceView {
                        translations: old(self)@.translations.update(
                            i,
                            final(t)@.as_translation(),
                        ),
                        ..old(self)@
                    })
                },
                None => {
                    &&& position(old(self)@.translation_ids(), id) is None
                    &&& *final(self) == *old(self)
                },
            },
    {
        assert(idents(self.translations@) =~= self@.translation_ids());
        match find(&self.translations, id) {
            Some(i) => Some(&mut self.translations[i]),
            None => None,
        }
    }

    /// The translations of this sentence, in order.
    pub fn translations(&self) -> (r: &Vec<Sentence<Target>>)
        ensures
            translation_views(r@) == self@.translations,
    {
        &self.translations
    }

    /// The translations of this sentence, to be edited in place.
    pub fn translations_mut(&mut self) -> (r: &mut Vec<Sentence<Target>>)
        ensures
            translation_views(r@) == old(self)@.translations,
            final(self)@ == (SentenceView {
                translations: translation_views(final(r)@),
                ..old(self)@
            }),
    {
        &mut self.translations
    }
}

impl Sentence<Target> {
    /// A translation that holds nothing yet.
    pub(crate) fn new(id: u32, lang: &str) -> (s: Self)
        ensures
            s@ == SentenceView::empty(id, lang@),
    {
        let s = Self {
            t: PhantomData,
            id,
            lang: lang.to_owned(),
            tokens: Vec::new(),
            translations: (),
        };
        assert(s@.tokens =~= Seq::empty());
        s
    }

    /// A translation made of the given parts, none of them looked at.
    pub(crate) fn from_parts(id: u32, lang: String, tokens: Vec<Token>) -> (s: Self)
        ensures
            s@ == (SentenceView {
                id,
                lang: lang@,
                tokens: views(tokens@),
                translations: Seq::empty(),
            }),
    {
        Self { t: PhantomData, id, lang, tokens, translations: () }
    }
}

impl<T: Role> Sentence<T> {
    /// Creates a new [`Token`] with a proper unique id.
    ///
    /// To add this token to this sentence, use [`add_token`](Self::add_token).
    /// The sentence itself is not changed.
    pub fn create_token(&self, form: &str) -> (token: Token)
        requires
            next_id(self@.token_ids()) <= u32::MAX,
        ensures
            token@ == TokenView::bare(next_id(self@.token_ids()) as u32, form@),
    {
        assert(idents(self.tokens@) =~= self@.token_ids());
        Token::new(next_free(&self.tokens), form)
    }

    /// Adds a token to this sentence, unless its form is empty: such a token is dropped.
    ///
    /// To create a [`Token`] with a proper unique id, use
    /// [`create_token()`](Self::create_token).
    pub fn add_token(&mut self, token: Token)
        ensures
            token@.form.len() == 0 ==> *final(self) == *old(self),
            token@.form.len() > 0 ==> final(self)@ == (SentenceView {
                tokens: old(self)@.tokens.push(token@),
                ..old(self)@
            }),
    {
        if token.get_form().is_empty() {
            return ;
        }
        self.tokens.push(token);
        assert(self@.tokens =~= old(self)@.tokens.push(token@));
    }

    /// The tokens of this sentence, in order.
    pub fn tokens(&self) -> (tokens: &Vec<Token>)
        ensures
            views(tokens@) == self@.tokens,
    {
        &self.tokens
    }

    /// The id of this sentence within its parent.
    pub fn sentence_id(&self) -> (id: u32)
        ensures
            id == self@.id,
    {
        self.id
    }

    /// The language tag of this sentence.
    pub fn lang(&self) -> (lang: &str)
        ensures
            lang@ == self@.lang,
    {
        self.lang.as_str()
    }

    /// The forms of the tokens, in order, with one space between neighbours.
    pub fn to_text(&self) -> (text: String)
        ensures
            text@ == spaced(forms(self@.tokens)),
    {
        let ghost all = forms(self@.tokens);
        let mut text = String::new();
        let mut i: usize = 0;
        while i < self.tokens.len()
            invariant
                i <= self.tokens.len(),
                all == forms(self@.tokens),
                all.len() == self.tokens.len(),
                text@ == spaced(all.take(i as int)),
            decreases self.tokens.len() - i,
        {
            proof {
                assert(all.take(i + 1).drop_last() =~= all.take(i as int));
                assert(all.take(i + 1).last() == self.tokens[i as int]@.form);
            }
            if i > 0 {
                text.append(" ");
            } else {
                assert(text@ + self.tokens[i as int]@.form =~= self.tokens[i as int]@.form);
            }
            text.append(self.tokens[i].get_form());
            i += 1;
        }
        proof {
            assert(all.take(self.tokens.len() as int) =~= all);
        }
        text
    }
}

} // verus!
