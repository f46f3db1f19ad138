//! The records that the entities of a corpus are written as: tokens,
//! translations, sentences, documents and authors.

use crate::author::{Author, AuthorView};
use crate::document::{Document, DocumentView};
use crate::error::{CorporeumError, ErrorView};
use crate::model::views;
use crate::schema::{
    Entity, entities, invalid, invalid_error, lemma_entities_round_trip, list_tree, models,
    need_int, need_text, opt_list, opt_text, opt_text_datum, opt_text_tree, put, read_each,
    read_int, read_list, read_opt_text, read_text, trees, write_each,
};
use crate::sentence::{Sentence, SentenceView, Source, Target, TranslationView, translation_views};
use crate::token::{Token, TokenView};
use crate::tree::{
    Datum, Tree, fields_view, lemma_fit_dict, lemma_fit_list,
    lemma_fit_with_field, lemma_with_field, with_field,
};
use vstd::prelude::*;

verus! {

/// The record that a token is written as.
pub open spec fn token_tree(t: TokenView) -> Tree {
    let f = Seq::<(Tree, Tree)>::empty();
    let f = with_field(f, "id"@, Some(Tree::Int(t.id as int)));
    let f = with_field(f, "form"@, Some(Tree::Text(t.form)));
    let f = with_field(f, "lemma"@, opt_text_tree(t.lemma));
    let f = with_field(f, "upos"@, opt_text_tree(t.upos));
    let f = with_field(f, "xpos"@, opt_text_tree(t.xpos));
    let f = with_field(f, "feats"@, opt_text_tree(t.feats));
    let f = with_field(f, "head"@, opt_text_tree(t.head));
    let f = with_field(f, "deprel"@, opt_text_tree(t.deprel));
    let f = with_field(f, "deps"@, opt_text_tree(t.deps));
    let f = with_field(f, "misc"@, opt_text_tree(t.misc));
    Tree::Dict(f)
}

/// The token that a tree is read as.
pub open spec fn tree_token(tree: Tree) -> Result<TokenView, ErrorView> {
    let id = need_int(tree, "id"@, 0, u32::MAX as int);
    let form = need_text(tree, "form"@);
    let lemma = opt_text(tree, "lemma"@);
    let upos = opt_text(tree, "upos"@);
    let xpos = opt_text(tree, "xpos"@);
    let feats = opt_text(tree, "feats"@);
    let head = opt_text(tree, "head"@);
    let deprel = opt_text(tree, "deprel"@);
    let deps = opt_text(tree, "deps"@);
    let misc = opt_text(tree, "misc"@);
    if !(tree is Dict) {
        Err(invalid("token"@))
    } else if id is Err {
        Err(id->Err_0)
    } else if form is Err {
        Err(form->Err_0)
    } else if lemma is Err {
        Err(lemma->Err_0)
    } else if upos is Err {
        Err(upos->Err_0)
    } else if xpos is Err {
        Err(xpos->Err_0)
    } else if feats is Err {
        Err(feats->Err_0)
    } else if head is Err {
        Err(head->Err_0)
    } else if deprel is Err {
        Err(deprel->Err_0)
    } else if deps is Err {
        Err(deps->Err_0)
    } else if misc is Err {
        Err(misc->Err_0)
    } else {
        Ok(
            TokenView {
                id: id->Ok_0 as u32,
                form: form->Ok_0,
                lemma: lemma->Ok_0,
                upos: upos->Ok_0,
                xpos: xpos->Ok_0,
                feats: feats->Ok_0,
                head: head->Ok_0,
                deprel: deprel->Ok_0,
                deps: deps->Ok_0,
                misc: misc->Ok_0,
            },
        )
    }
}

/// The names of the fields of a token are ten different names.
proof fn lemma_token_names()
    ensures
        "id"@.len() == 2,
        "form"@.len() == 4 && "form"@[0] == 'f',
        "lemma"@.len() == 5 && "lemma"@[0] == 'l',
        "upos"@.len() == 4 && "upos"@[0] == 'u',
        "xpos"@.len() == 4 && "xpos"@[0] == 'x',
        "feats"@.len() == 5 && "feats"@[0] == 'f',
        "head"@.len() == 4 && "head"@[0] == 'h',
        "deprel"@.len() == 6,
        "deps"@.len() == 4 && "deps"@[0] == 'd',
        "misc"@.len() == 4 && "misc"@[0] == 'm',
{
    reveal_strlit("id");
    reveal_strlit("form");
    reveal_strlit("lemma");
    reveal_strlit("upos");
    reveal_strlit("xpos");
    reveal_strlit("feats");
    reveal_strlit("head");
    reveal_strlit("deprel");
    reveal_strlit("deps");
    reveal_strlit("misc");
}

impl Entity for Token {
    type Model = TokenView;

    open spec fn model(&self) -> TokenView {
        self@
    }

    open spec fn tree_of(model: TokenView) -> Tree {
        token_tree(model)
    }

    open spec fn of_tree(tree: Tree) -> Result<TokenView, ErrorView> {
        tree_token(tree)
    }


    fn to_datum(&self) -> (d: Datum) {
        let token = self;
        let mut fields: Vec<(String, Datum)> = Vec::new();
        assert(fields_view(fields@) =~= Seq::empty());
        put(&mut fields, "id", Some(Datum::Integer(token.token_id() as i64)));
        put(&mut fields, "form", Some(Datum::Text(token.get_form().to_owned())));
        put(&mut fields, "lemma", opt_text_datum(token.get_lemma()));
        put(&mut fields, "upos", opt_text_datum(token.get_upos()));
        put(&mut fields, "xpos", opt_text_datum(token.get_xpos()));
        put(&mut fields, "feats", opt_text_datum(token.get_feats()));
        put(&mut fields, "head", opt_text_datum(token.get_head()));
        put(&mut fields, "deprel", opt_text_datum(token.get_deprel()));
        put(&mut fields, "deps", opt_text_datum(token.get_deps()));
        put(&mut fields, "misc", opt_text_datum(token.get_misc()));
        Datum::Record(fields)
    }

    fn from_datum(d: &Datum) -> (r: Result<Self, CorporeumError>) {
        if !d.is_record() {
            return Err(invalid_error("token"));
        }
        let id = read_int(d, "id", 0, u32::MAX as i64)?;
        let form = read_text(d, "form")?;
        let lemma = read_opt_text(d, "lemma")?;
        let upos = read_opt_text(d, "upos")?;
        let xpos = read_opt_text(d, "xpos")?;
        let feats = read_opt_text(d, "feats")?;
        let head = read_opt_text(d, "head")?;
        let deprel = read_opt_text(d, "deprel")?;
        let deps = read_opt_text(d, "deps")?;
        let misc = read_opt_text(d, "misc")?;
        Ok(Token::from_parts(id as u32, form, lemma, upos, xpos, feats, head, deprel, deps, misc))
    }

    proof fn lemma_round_trip(t: TokenView) {
        lemma_token_round_trip(t);
    }
}

/// A token that was written as a tree is read back as it was, and the tree is one that
/// the codecs take.
pub proof fn lemma_token_round_trip(t: TokenView)
    ensures
        tree_token(token_tree(t)) == Ok::<TokenView, ErrorView>(t),
        token_tree(t).fit(),
{
    lemma_token_names();
    let f0 = Seq::<(Tree, Tree)>::empty();
    let f1 = with_field(f0, "id"@, Some(Tree::Int(t.id as int)));
    let f2 = with_field(f1, "form"@, Some(Tree::Text(t.form)));
    let f3 = with_field(f2, "lemma"@, opt_text_tree(t.lemma));
    let f4 = with_field(f3, "upos"@, opt_text_tree(t.upos));
    let f5 = with_field(f4, "xpos"@, opt_text_tree(t.xpos));
    let f6 = with_field(f5, "feats"@, opt_text_tree(t.feats));
    let f7 = with_field(f6, "head"@, opt_text_tree(t.head));
    let f8 = with_field(f7, "deprel"@, opt_text_tree(t.deprel));
    let f9 = with_field(f8, "deps"@, opt_text_tree(t.deps));
    let f10 = with_field(f9, "misc"@, opt_text_tree(t.misc));
    lemma_with_field(f0, "id"@, Some(Tree::Int(t.id as int)));
    lemma_with_field(f1, "form"@, Some(Tree::Text(t.form)));
    lemma_with_field(f2, "lemma"@, opt_text_tree(t.lemma));
    lemma_with_field(f3, "upos"@, opt_text_tree(t.upos));
    lemma_with_field(f4, "xpos"@, opt_text_tree(t.xpos));
    lemma_with_field(f5, "feats"@, opt_text_tree(t.feats));
    lemma_with_field(f6, "head"@, opt_text_tree(t.head));
    lemma_with_field(f7, "deprel"@, opt_text_tree(t.deprel));
    lemma_with_field(f8, "deps"@, opt_text_tree(t.deps));
    lemma_with_field(f9, "misc"@, opt_text_tree(t.misc));
    lemma_fit_with_field(f0, "id"@, Some(Tree::Int(t.id as int)));
    lemma_fit_with_field(f1, "form"@, Some(Tree::Text(t.form)));
    lemma_fit_with_field(f2, "lemma"@, opt_text_tree(t.lemma));
    lemma_fit_with_field(f3, "upos"@, opt_text_tree(t.upos));
    lemma_fit_with_field(f4, "xpos"@, opt_text_tree(t.xpos));
    lemma_fit_with_field(f5, "feats"@, opt_text_tree(t.feats));
    lemma_fit_with_field(f6, "head"@, opt_text_tree(t.head));
    lemma_fit_with_field(f7, "deprel"@, opt_text_tree(t.deprel));
    lemma_fit_with_field(f8, "deps"@, opt_text_tree(t.deps));
    lemma_fit_with_field(f9, "misc"@, opt_text_tree(t.misc));
    lemma_fit_dict(f10);
    let tree = token_tree(t);
    assert(tree == Tree::Dict(f10));
    assert(tree.field("id"@) == Some(Tree::Int(t.id as int)));
    assert(tree.field("form"@) == Some(Tree::Text(t.form)));
    assert(tree.field("lemma"@) == opt_text_tree(t.lemma));
    assert(tree.field("upos"@) == opt_text_tree(t.upos));
    assert(tree.field("xpos"@) == opt_text_tree(t.xpos));
    assert(tree.field("feats"@) == opt_text_tree(t.feats));
    assert(tree.field("head"@) == opt_text_tree(t.head));
    assert(tree.field("deprel"@) == opt_text_tree(t.deprel));
    assert(tree.field("deps"@) == opt_text_tree(t.deps));
    assert(tree.field("misc"@) == opt_text_tree(t.misc));
}

/// The record that a translation is written as.
pub open spec fn translation_tree(t: TranslationView) -> Tree {
    let f = Seq::<(Tree, Tree)>::empty();
    let f = with_field(f, "id"@, Some(Tree::Int(t.id as int)));
    let f = with_field(f, "lang"@, Some(Tree::Text(t.lang)));
    let f = with_field(f, "tokens"@, list_tree(trees::<Token>(t.tokens)));
    Tree::Dict(f)
}

/// The translation that a tree is read as.
pub open spec fn tree_translation(tree: Tree) -> Result<TranslationView, ErrorView> {
    let id = need_int(tree, "id"@, 0, u32::MAX as int);
    let lang = need_text(tree, "lang"@);
    let items = opt_list(tree, "tokens"@);
    let tokens = entities::<Token>(items->Ok_0);
    if !(tree is Dict) {
        Err(invalid("translation"@))
    } else if id is Err {
        Err(id->Err_0)
    } else if lang is Err {
        Err(lang->Err_0)
    } else if items is Err {
        Err(items->Err_0)
    } else if tokens is Err {
        Err(tokens->Err_0)
    } else {
        Ok(TranslationView { id: id->Ok_0 as u32, lang: lang->Ok_0, tokens: tokens->Ok_0 })
    }
}

/// A translation that was written as a tree is read back as it was, and the tree is one
/// that the codecs take.
pub proof fn lemma_translation_round_trip(t: TranslationView)
    ensures
        tree_translation(translation_tree(t)) == Ok::<TranslationView, ErrorView>(t),
        translation_tree(t).fit(),
{
    reveal_strlit("id");
    reveal_strlit("lang");
    reveal_strlit("tokens");
    lemma_entities_round_trip::<Token>(t.tokens);
    let tokens = list_tree(trees::<Token>(t.tokens));
    if t.tokens.len() > 0 {
        lemma_fit_list(trees::<Token>(t.tokens));
    } else {
        assert(t.tokens =~= Seq::empty());
    }
    let f0 = Seq::<(Tree, Tree)>::empty();
    let f1 = with_field(f0, "id"@, Some(Tree::Int(t.id as int)));
    let f2 = with_field(f1, "lang"@, Some(Tree::Text(t.lang)));
    let f3 = with_field(f2, "tokens"@, tokens);
    lemma_with_field(f0, "id"@, Some(Tree::Int(t.id as int)));
    lemma_with_field(f1, "lang"@, Some(Tree::Text(t.lang)));
    lemma_with_field(f2, "tokens"@, tokens);
    lemma_fit_with_field(f0, "id"@, Some(Tree::Int(t.id as int)));
    lemma_fit_with_field(f1, "lang"@, Some(Tree::Text(t.lang)));
    lemma_fit_with_field(f2, "tokens"@, tokens);
    lemma_fit_dict(f3);
    let tree = translation_tree(t);
    assert(tree == Tree::Dict(f3));
    assert(tree.field("id"@) == Some(Tree::Int(t.id as int)));
    assert(tree.field("lang"@) == Some(Tree::Text(t.lang)));
    assert(tree.field("tokens"@) == tokens);
}

impl Entity for Sentence<Target> {
    type Model = TranslationView;

    open spec fn model(&self) -> TranslationView {
        self@.as_translation()
    }

    open spec fn tree_of(model: TranslationView) -> Tree {
        translation_tree(model)
    }

    open spec fn of_tree(tree: Tree) -> Result<TranslationView, ErrorView> {
        tree_translation(tree)
    }


    fn to_datum(&self) -> (d: Datum) {
        let mut fields: Vec<(String, Datum)> = Vec::new();
        assert(fields_view(fields@) =~= Seq::empty());
        let tokens = self.tokens();
        assert(models(tokens@) =~= self@.tokens);
        put(&mut fields, "id", Some(Datum::Integer(self.sentence_id() as i64)));
        put(&mut fields, "lang", Some(Datum::Text(self.lang().to_owned())));
        put(&mut fields, "tokens", write_each(tokens));
        Datum::Record(fields)
    }

    fn from_datum(d: &Datum) -> (r: Result<Self, CorporeumError>) {
        if !d.is_record() {
            return Err(invalid_error("translation"));
        }
        let id = read_int(d, "id", 0, u32::MAX as i64)?;
        let lang = read_text(d, "lang")?;
        let items = read_list(d, "tokens")?;
        let tokens = read_each::<Token>(items)?;
        assert(views(tokens@) =~= models(tokens@));
        Ok(Sentence::<Target>::from_parts(id as u32, lang, tokens))
    }

    proof fn lemma_round_trip(t: TranslationView) {
        lemma_translation_round_trip(t);
    }
}

/// The record that a sentence of the source text is written as.
pub open spec fn sentence_tree(s: SentenceView) -> Tree {
    let f = Seq::<(Tree, Tree)>::empty();
    let f = with_field(f, "id"@, Some(Tree::Int(s.id as int)));
    let f = with_field(f, "lang"@, Some(Tree::Text(s.lang)));
    let f = with_field(f, "tokens"@, list_tree(trees::<Token>(s.tokens)));
    let f = with_field(f, "translations"@, list_tree(trees::<Sentence<Target>>(s.translations)));
    Tree::Dict(f)
}

/// The sentence of the source text that a tree is read as.
pub open spec fn tree_sentence(tree: Tree) -> Result<SentenceView, ErrorView> {
    let id = need_int(tree, "id"@, 0, u32::MAX as int);
    let lang = need_text(tree, "lang"@);
    let items = opt_list(tree, "tokens"@);
    let tokens = entities::<Token>(items->Ok_0);
    let renderings = opt_list(tree, "translations"@);
    let translations = entities::<Sentence<Target>>(renderings->Ok_0);
    if !(tree is Dict) {
        Err(invalid("sentence"@))
    } else if id is Err {
        Err(id->Err_0)
    } else if lang is Err {
        Err(lang->Err_0)
    } else if items is Err {
        Err(items->Err_0)
    } else if tokens is Err {
        Err(tokens->Err_0)
    } else if renderings is Err {
        Err(renderings->Err_0)
    } else if translations is Err {
        Err(translations->Err_0)
    } else {
        Ok(
            SentenceView {
                id: id->Ok_0 as u32,
                lang: lang->Ok_0,
                tokens: tokens->Ok_0,
                translations: translations->Ok_0,
            },
        )
    }
}

/// A sentence that was written as a tree is read back as it was, and the tree is one
/// that the codecs take.
pub proof fn lemma_sentence_round_trip(s: SentenceView)
    ensures
        tree_sentence(sentence_tree(s)) == Ok::<SentenceView, ErrorView>(s),
        sentence_tree(s).fit(),
{
    reveal_strlit("id");
    reveal_strlit("lang");
    reveal_strlit("tokens");
    reveal_strlit("translations");
    lemma_entities_round_trip::<Token>(s.tokens);
    lemma_entities_round_trip::<Sentence<Target>>(s.translations);
    let tokens = list_tree(trees::<Token>(s.tokens));
    let translations = list_tree(trees::<Sentence<Target>>(s.translations));
    if s.tokens.len() > 0 {
        lemma_fit_list(trees::<Token>(s.tokens));
    } else {
        assert(s.tokens =~= Seq::empty());
    }
    if s.translations.len() > 0 {
        lemma_fit_list(trees::<Sentence<Target>>(s.translations));
    } else {
        assert(s.translations =~= Seq::empty());
    }
    let f0 = Seq::<(Tree, Tree)>::empty();
    let f1 = with_field(f0, "id"@, Some(Tree::Int(s.id as int)));
    let f2 = with_field(f1, "lang"@, Some(Tree::Text(s.lang)));
    let f3 = with_field(f2, "tokens"@, tokens);
    let f4 = with_field(f3, "translations"@, translations);
    lemma_with_field(f0, "id"@, Some(Tree::Int(s.id as int)));
    lemma_with_field(f1, "lang"@, Some(Tree::Text(s.lang)));
    lemma_with_field(f2, "tokens"@, tokens);
    lemma_with_field(f3, "translations"@, translations);
    lemma_fit_with_field(f0, "id"@, Some(Tree::Int(s.id as int)));
    lemma_fit_with_field(f1, "lang"@, Some(Tree::Text(s.lang)));
    lemma_fit_with_field(f2, "tokens"@, tokens);
    lemma_fit_with_field(f3, "translations"@, translations);
    lemma_fit_dict(f4);
    let tree = sentence_tree(s);
    assert(tree == Tree::Dict(f4));
    assert(tree.field("id"@) == Some(Tree::Int(s.id as int)));
    assert(tree.field("lang"@) == Some(Tree::Text(s.lang)));
    assert(tree.field("tokens"@) == tokens);
    assert(tree.field("translations"@) == translations);
}

impl Entity for Sentence<Source> {
    type Model = SentenceView;

    open spec fn model(&self) -> SentenceView {
        self@
    }

    open spec fn tree_of(model: SentenceView) -> Tree {
        sentence_tree(model)
    }

    open spec fn of_tree(tree: Tree) -> Result<SentenceView, ErrorView> {
        tree_sentence(tree)
    }


    fn to_datum(&self) -> (d: Datum) {
        let mut fields: Vec<(String, Datum)> = Vec::new();
        assert(fields_view(fields@) =~= Seq::empty());
        let tokens = self.tokens();
        let translations = self.translations();
        assert(models(tokens@) =~= self@.tokens);
        assert(models(translations@) =~= self@.translations);
        put(&mut fields, "id", Some(Datum::Integer(self.sentence_id() as i64)));
        put(&mut fields, "lang", Some(Datum::Text(self.lang().to_owned())));
        put(&mut fields, "tokens", write_each(tokens));
        put(&mut fields, "translations", write_each(translations));
        Datum::Record(fields)
    }

    fn from_datum(d: &Datum) -> (r: Result<Self, CorporeumError>) {
        if !d.is_record() {
            return Err(invalid_error("sentence"));
        }
        let id = read_int(d, "id", 0, u32::MAX as i64)?;
        let lang = read_text(d, "lang")?;
        let items = read_list(d, "tokens")?;
        let tokens = read_each::<Token>(items)?;
        let renderings = read_list(d, "translations")?;
        let translations = read_each::<Sentence<Target>>(renderings)?;
        assert(views(tokens@) =~= models(tokens@));
        assert(translation_views(translations@) =~= models(translations@));
        Ok(Sentence::<Source>::from_parts(id as u32, lang, tokens, translations))
    }

    proof fn lemma_round_trip(s: SentenceView) {
        lemma_sentence_round_trip(s);
    }
}

/// The record that a document is written as.
pub open spec fn document_tree(d: DocumentView) -> Tree {
    let f = Seq::<(Tree, Tree)>::empty();
    let f = with_field(f, "description"@, opt_text_tree(d.description));
    let f = with_field(f, "id"@, Some(Tree::Int(d.id as int)));
    let f = with_field(f, "sentences"@, list_tree(trees::<Sentence<Source>>(d.sentences)));
    let f = with_field(f, "source"@, opt_text_tree(d.source));
    Tree::Dict(f)
}

/// The document that a tree is read as.
pub open spec fn tree_document(tree: Tree) -> Result<DocumentView, ErrorView> {
    let description = opt_text(tree, "description"@);
    let id = need_int(tree, "id"@, 0, u32::MAX as int);
    let items = opt_list(tree, "sentences"@);
    let sentences = entities::<Sentence<Source>>(items->Ok_0);
    let source = opt_text(tree, "source"@);
    if !(tree is Dict) {
        Err(invalid("document"@))
    } else if description is Err {
        Err(description->Err_0)
    } else if id is Err {
        Err(id->Err_0)
    } else if items is Err {
        Err(items->Err_0)
    } else if sentences is Err {
        Err(sentences->Err_0)
    } else if source is Err {
        Err(source->Err_0)
    } else {
        Ok(
            DocumentView {
                description: description->Ok_0,
                id: id->Ok_0 as u32,
                sentences: sentences->Ok_0,
                source: source->Ok_0,
            },
        )
    }
}

/// A document that was written as a tree is read back as it was, and the tree is one
/// that the codecs take.
pub proof fn lemma_document_round_trip(d: DocumentView)
    ensures
        tree_document(document_tree(d)) == Ok::<DocumentView, ErrorView>(d),
        document_tree(d).fit(),
{
    reveal_strlit("description");
    reveal_strlit("id");
    reveal_strlit("sentences");
    reveal_strlit("source");
    lemma_entities_round_trip::<Sentence<Source>>(d.sentences);
    let sentences = list_tree(trees::<Sentence<Source>>(d.sentences));
    if d.sentences.len() > 0 {
        lemma_fit_list(trees::<Sentence<Source>>(d.sentences));
    } else {
        assert(d.sentences =~= Seq::empty());
    }
    let f0 = Seq::<(Tree, Tree)>::empty();
    let f1 = with_field(f0, "description"@, opt_text_tree(d.description));
    let f2 = with_field(f1, "id"@, Some(Tree::Int(d.id as int)));
    let f3 = with_field(f2, "sentences"@, sentences);
    let f4 = with_field(f3, "source"@, opt_text_tree(d.source));
    lemma_with_field(f0, "description"@, opt_text_tree(d.description));
    lemma_with_field(f1, "id"@, Some(Tree::Int(d.id as int)));
    lemma_with_field(f2, "sentences"@, sentences);
    lemma_with_field(f3, "source"@, opt_text_tree(d.source));
    lemma_fit_with_field(f0, "description"@, opt_text_tree(d.description));
    lemma_fit_with_field(f1, "id"@, Some(Tree::Int(d.id as int)));
    lemma_fit_with_field(f2, "sentences"@, sentences);
    lemma_fit_with_field(f3, "source"@, opt_text_tree(d.source));
    lemma_fit_dict(f4);
    let tree = document_tree(d);
    assert(tree == Tree::Dict(f4));
    assert(tree.field("description"@) == opt_text_tree(d.description));
    assert(tree.field("id"@) == Some(Tree::Int(d.id as int)));
    assert(tree.field("sentences"@) == sentences);
    assert(tree.field("source"@) == opt_text_tree(d.source));
}

impl Entity for Document {
    type Model = DocumentView;

    open spec fn model(&self) -> DocumentView {
        self@
    }

    open spec fn tree_of(model: DocumentView) -> Tree {
        document_tree(model)
    }

    open spec fn of_tree(tree: Tree) -> Result<DocumentView, ErrorView> {
        tree_document(tree)
    }


    fn to_datum(&self) -> (d: Datum) {
        let mut fields: Vec<(String, Datum)> = Vec::new();
        assert(fields_view(fields@) =~= Seq::empty());
        let sentences = self.get_sentences();
        assert(models(sentences@) =~= self@.sentences);
        put(&mut fields, "description", opt_text_datum(self.description()));
        put(&mut fields, "id", Some(Datum::Integer(self.get_doc_id() as i64)));
        put(&mut fields, "sentences", write_each(sentences));
        put(&mut fields, "source", opt_text_datum(self.source()));
        Datum::Record(fields)
    }

    fn from_datum(d: &Datum) -> (r: Result<Self, CorporeumError>) {
        if !d.is_record() {
            return Err(invalid_error("document"));
        }
        let description = read_opt_text(d, "description")?;
        let id = read_int(d, "id", 0, u32::MAX as i64)?;
        let items = read_list(d, "sentences")?;
        let sentences = read_each::<Sentence<Source>>(items)?;
        let source = read_opt_text(d, "source")?;
        assert(views(sentences@) =~= models(sentences@));
        Ok(Document::from_parts(id as u32, source, description, sentences))
    }

    proof fn lemma_round_trip(d: DocumentView) {
        lemma_document_round_trip(d);
    }
}

/// The record that an author is written as.
pub open spec fn author_tree(a: AuthorView) -> Tree {
    let f = Seq::<(Tree, Tree)>::empty();
    let f = with_field(f, "first_name"@, Some(Tree::Text(a.first_name)));
    let f = with_field(f, "last_name"@, Some(Tree::Text(a.last_name)));
    let f = with_field(f, "mail"@, opt_text_tree(a.mail));
    Tree::Dict(f)
}

/// The author that a tree is read as.
pub open spec fn tree_author(tree: Tree) -> Result<AuthorView, ErrorView> {
    let first_name = need_text(tree, "first_name"@);
    let last_name = need_text(tree, "last_name"@);
    let mail = opt_text(tree, "mail"@);
    if !(tree is Dict) {
        Err(invalid("author"@))
    } else if first_name is Err {
        Err(first_name->Err_0)
    } else if last_name is Err {
        Err(last_name->Err_0)
    } else if mail is Err {
        Err(mail->Err_0)
    } else {
        Ok(
            AuthorView {
                first_name: first_name->Ok_0,
                last_name: last_name->Ok_0,
                mail: mail->Ok_0,
            },
        )
    }
}

/// An author that was written as a tree is read back as it was, and the tree is one
/// that the codecs take.
pub proof fn lemma_author_round_trip(a: AuthorView)
    ensures
        tree_author(author_tree(a)) == Ok::<AuthorView, ErrorView>(a),
        author_tree(a).fit(),
{
    reveal_strlit("first_name");
    reveal_strlit("last_name");
    reveal_strlit("mail");
    let f0 = Seq::<(Tree, Tree)>::empty();
    let f1 = with_field(f0, "first_name"@, Some(Tree::Text(a.first_name)));
    let f2 = with_field(f1, "last_name"@, Some(Tree::Text(a.last_name)));
    let f3 = with_field(f2, "mail"@, opt_text_tree(a.mail));
    lemma_with_field(f0, "first_name"@, Some(Tree::Text(a.first_name)));
    lemma_with_field(f1, "last_name"@, Some(Tree::Text(a.last_name)));
    lemma_with_field(f2, "mail"@, opt_text_tree(a.mail));
    lemma_fit_with_field(f0, "first_name"@, Some(Tree::Text(a.first_name)));
    lemma_fit_with_field(f1, "last_name"@, Some(Tree::Text(a.last_name)));
    lemma_fit_with_field(f2, "mail"@, opt_text_tree(a.mail));
    lemma_fit_dict(f3);
    let tree = author_tree(a);
    assert(tree == Tree::Dict(f3));
    assert(tree.field("first_name"@) == Some(Tree::Text(a.first_name)));
    assert(tree.field("last_name"@) == Some(Tree::Text(a.last_name)));
    assert(tree.field("mail"@) == opt_text_tree(a.mail));
}

impl Entity for Author {
    type Model = AuthorView;

    open spec fn model(&self) -> AuthorView {
        self@
    }

    open spec fn tree_of(model: AuthorView) -> Tree {
        author_tree(model)
    }

    open spec fn of_tree(tree: Tree) -> Result<AuthorView, ErrorView> {
        tree_author(tree)
    }


    fn to_datum(&self) -> (d: Datum) {
        let mut fields: Vec<(String, Datum)> = Vec::new();
        assert(fields_view(fields@) =~= Seq::empty());
        put(&mut fields, "first_name", Some(Datum::Text(self.first_name().to_owned())));
        put(&mut fields, "last_name", Some(Datum::Text(self.last_name().to_owned())));
        put(&mut fields, "mail", opt_text_datum(self.mail()));
        Datum::Record(fields)
    }

    fn from_datum(d: &Datum) -> (r: Result<Self, CorporeumError>) {
        if !d.is_record() {
            return Err(invalid_error("author"));
        }
        let first_name = read_text(d, "first_name")?;
        let last_name = read_text(d, "last_name")?;
        let mail = read_opt_text(d, "mail")?;
        Ok(Author::from_parts(first_name, last_name, mail))
    }

    proof fn lemma_round_trip(a: AuthorView) {
        lemma_author_round_trip(a);
    }
}

} // verus!
