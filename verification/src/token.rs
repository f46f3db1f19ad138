//! The smallest unit of a corpus: a surface form with optional
//! CoNLL-U style annotations.

use crate::ident::Identified;
use crate::model::Alike;
use crate::text::{as_text, same_opt_text, same_text, str_text_of, text_of};
use vstd::prelude::*;

verus! {

/// Represents a token.
///
/// A token is created by its sentence, see
/// [`create_token()`](crate::sentence::Sentence::create_token), and committed with
/// [`add_token()`](crate::sentence::Sentence::add_token).
#[derive(Debug)]
pub struct Token {
    id: u32,
    form: String,
    lemma: Option<String>,
    upos: Option<String>,
    xpos: Option<String>,
    feats: Option<String>,
    head: Option<String>,
    deprel: Option<String>,
    deps: Option<String>,
    misc: Option<String>,
}

/// What a token holds, as mathematical values.
pub struct TokenView {
    pub id: u32,
    pub form: Seq<char>,
    pub lemma: Option<Seq<char>>,
    pub upos: Option<Seq<char>>,
    pub xpos: Option<Seq<char>>,
    pub feats: Option<Seq<char>>,
    pub head: Option<Seq<char>>,
    pub deprel: Option<Seq<char>>,
    pub deps: Option<Seq<char>>,
    pub misc: Option<Seq<char>>,
}

impl TokenView {
    /// A token that carries nothing but its id and form.
    pub open spec fn bare(id: u32, form: Seq<char>) -> TokenView {
        TokenView {
            id,
            form,
            lemma: None,
            upos: None,
            xpos: None,
            feats: None,
            head: None,
            deprel: None,
            deps: None,
            misc: None,
        }
    }
}

impl View for Token {
    type V = TokenView;

    closed spec fn view(&self) -> TokenView {
        TokenView {
            id: self.id,
            form: self.form@,
            lemma: text_of(self.lemma),
            upos: text_of(self.upos),
            xpos: text_of(self.xpos),
            feats: text_of(self.feats),
            head: text_of(self.head),
            deprel: text_of(self.deprel),
            deps: text_of(self.deps),
            misc: text_of(self.misc),
        }
    }
}

impl Identified for Token {
    open spec fn ident(&self) -> u32 {
        self@.id
    }

    fn id(&self) -> (id: u32) {
        self.id
    }
}

impl Alike for Token {
    fn alike(&self, other: &Self) -> (same: bool) {
        self.id == other.id && same_text(self.form.as_str(), other.form.as_str()) && same_opt_text(
            &self.lemma,
            &other.lemma,
        ) && same_opt_text(&self.upos, &other.upos) && same_opt_text(&self.xpos, &other.xpos)
            && same_opt_text(&self.feats, &other.feats) && same_opt_text(&self.head, &other.head)
            && same_opt_text(&self.deprel, &other.deprel) && same_opt_text(&self.deps, &other.deps)
            && same_opt_text(&self.misc, &other.misc)
    }
}

impl PartialEq for Token {
    fn eq(&self, other: &Self) -> (same: bool) {
        self.alike(other)
    }
}

impl vstd::std_specs::cmp::PartialEqSpecImpl for Token {
    open spec fn obeys_eq_spec() -> bool {
        true
    }

    open spec fn eq_spec(&self, other: &Self) -> bool {
        self@ == other@
    }
}

impl Eq for Token {

}

impl Token {
    /// A token with the given id and form and no annotation.
    pub(crate) fn new(id: u32, token: &str) -> (t: Self)
        ensures
            t@ == TokenView::bare(id, token@),
    {
        Self {
            id,
            form: token.to_owned(),
            lemma: None,
            upos: None,
            xpos: None,
            feats: None,
            head: None,
            deprel: None,
            deps: None,
            misc: None,
        }
    }

    /// A token made of the given parts, none of them looked at.
    pub(crate) fn from_parts(
        id: u32,
        form: String,
        lemma: Option<String>,
        upos: Option<String>,
        xpos: Option<String>,
        feats: Option<String>,
        head: Option<String>,
        deprel: Option<String>,
        deps: Option<String>,
        misc: Option<String>,
    ) -> (t: Self)
        ensures
            t@ == (TokenView {
                id,
                form: form@,
                lemma: text_of(lemma),
                upos: text_of(upos),
                xpos: text_of(xpos),
                feats: text_of(feats),
                head: text_of(head),
                deprel: text_of(deprel),
                deps: text_of(deps),
                misc: text_of(misc),
            }),
    {
        Self { id, form, lemma, upos, xpos, feats, head, deprel, deps, misc }
    }

    /// The id of this token within its sentence.
    pub fn token_id(&self) -> (id: u32)
        ensures
            id == self@.id,
    {
        self.id
    }

    /// The surface form of this token.
    pub fn get_form(&self) -> (form: &str)
        ensures
            form@ == self@.form,
    {
        self.form.as_str()
    }

    /// The surface form, to be edited in place; nothing else can change through it.
    pub fn get_form_mut(&mut self) -> (form: &mut String)
        ensures
            form@ == old(self)@.form,
            final(self)@ == (TokenView { form: final(form)@, ..old(self)@ }),
    {
        &mut self.form
    }

    /// The lemma or stem of the word form, if the token has one.
    pub fn get_lemma(&self) -> (lemma: Option<&str>)
        ensures
            str_text_of(lemma) == self@.lemma,
    {
        as_text(&self.lemma)
    }

    /// Sets the lemma or stem of the word form; nothing else changes.
    pub fn set_lemma(&mut self, lemma: &str)
        ensures
            final(self)@ == (TokenView { lemma: Some(lemma@), ..old(self)@ }),
    {
        self.lemma = Some(lemma.to_owned());
    }

    /// Takes the lemma or stem of the word form away; nothing else changes.
    pub fn remove_lemma(&mut self)
        ensures
            final(self)@ == (TokenView { lemma: None, ..old(self)@ }),
    {
        self.lemma = None;
    }

    /// The universal part-of-speech tag, if the token has one.
    pub fn get_upos(&self) -> (upos: Option<&str>)
        ensures
            str_text_of(upos) == self@.upos,
    {
        as_text(&self.upos)
    }

    /// Sets the universal part-of-speech tag; nothing else changes.
    pub fn set_upos(&mut self, upos: &str)
        ensures
            final(self)@ == (TokenView { upos: Some(upos@), ..old(self)@ }),
    {
        self.upos = Some(upos.to_owned());
    }

    /// Takes the universal part-of-speech tag away; nothing else changes.
    pub fn remove_upos(&mut self)
        ensures
            final(self)@ == (TokenView { upos: None, ..old(self)@ }),
    {
        self.upos = None;
    }

    /// The language-specific part-of-speech tag, if the token has one.
    pub fn get_xpos(&self) -> (xpos: Option<&str>)
        ensures
            str_text_of(xpos) == self@.xpos,
    {
        as_text(&self.xpos)
    }

    /// Sets the language-specific part-of-speech tag; nothing else changes.
    pub fn set_xpos(&mut self, xpos: &str)
        ensures
            final(self)@ == (TokenView { xpos: Some(xpos@), ..old(self)@ }),
    {
        self.xpos = Some(xpos.to_owned());
    }

    /// Takes the language-specific part-of-speech tag away; nothing else changes.
    pub fn remove_xpos(&mut self)
        ensures
            final(self)@ == (TokenView { xpos: None, ..old(self)@ }),
    {
        self.xpos = None;
    }

    /// The list of morphological features, if the token has one.
    pub fn get_feats(&self) -> (feats: Option<&str>)
        ensures
            str_text_of(feats) == self@.feats,
    {
        as_text(&self.feats)
    }

    /// Sets the list of morphological features; nothing else changes.
    pub fn set_feats(&mut self, feats: &str)
        ensures
            final(self)@ == (TokenView { feats: Some(feats@), ..old(self)@ }),
    {
        self.feats = Some(feats.to_owned());
    }

    /// Takes the list of morphological features away; nothing else changes.
    pub fn remove_feats(&mut self)
        ensures
            final(self)@ == (TokenView { feats: None, ..old(self)@ }),
    {
        self.feats = None;
    }

    /// The head of the token in the dependency tree, if the token has one.
    pub fn get_head(&self) -> (head: Option<&str>)
        ensures
            str_text_of(head) == self@.head,
    {
        as_text(&self.head)
    }

    /// Sets the head of the token in the dependency tree; nothing else changes.
    pub fn set_head(&mut self, head: &str)
        ensures
            final(self)@ == (TokenView { head: Some(head@), ..old(self)@ }),
    {
        self.head = Some(head.to_owned());
    }

    /// Takes the head of the token in the dependency tree away; nothing else changes.
    pub fn remove_head(&mut self)
        ensures
            final(self)@ == (TokenView { head: None, ..old(self)@ }),
    {
        self.head = None;
    }

    /// The dependency relation to the head, if the token has one.
    pub fn get_deprel(&self) -> (deprel: Option<&str>)
        ensures
            str_text_of(deprel) == self@.deprel,
    {
        as_text(&self.deprel)
    }

    /// Sets the dependency relation to the head; nothing else changes.
    pub fn set_deprel(&mut self, deprel: &str)
        ensures
            final(self)@ == (TokenView { deprel: Some(deprel@), ..old(self)@ }),
    {
        self.deprel = Some(deprel.to_owned());
    }

    /// Takes the dependency relation to the head away; nothing else changes.
    pub fn remove_deprel(&mut self)
        ensures
            final(self)@ == (TokenView { deprel: None, ..old(self)@ }),
    {
        self.deprel = None;
    }

    /// The enhanced dependency graph, if the token has one.
    pub fn get_deps(&self) -> (deps: Option<&str>)
        ensures
            str_text_of(deps) == self@.deps,
    {
        as_text(&self.deps)
    }

    /// Sets the enhanced dependency graph; nothing else changes.
    pub fn set_deps(&mut self, deps: &str)
        ensures
            final(self)@ == (TokenView { deps: Some(deps@), ..old(self)@ }),
    {
        self.deps = Some(deps.to_owned());
    }

    /// Takes the enhanced dependency graph away; nothing else changes.
    pub fn remove_deps(&mut self)
        ensures
            final(self)@ == (TokenView { deps: None, ..old(self)@ }),
    {
        self.deps = None;
    }

    /// The free annotation kept for compatibility with CoNLL-U, if the token has one.
    pub fn get_misc(&self) -> (misc: Option<&str>)
        ensures
            str_text_of(misc) == self@.misc,
    {
        as_text(&self.misc)
    }

    /// Sets the free annotation kept for compatibility with CoNLL-U; nothing else changes.
    pub fn set_misc(&mut self, misc: &str)
        ensures
            final(self)@ == (TokenView { misc: Some(misc@), ..old(self)@ }),
    {
        self.misc = Some(misc.to_owned());
    }

    /// Takes the free annotation kept for compatibility with CoNLL-U away; nothing else changes.
    pub fn remove_misc(&mut self)
        ensures
            final(self)@ == (TokenView { misc: None, ..old(self)@ }),
    {
        self.misc = None;
    }
}

} // verus!
