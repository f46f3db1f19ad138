use corporeum::{Corpus, CorporeumError, Document, Sentence, Source};

fn sentence_of(doc: &mut Document, lang: &str, forms: &[&str]) -> Sentence<Source> {
    let mut sentence = doc.create_sentence(lang);
    for form in forms {
        let token = sentence.create_token(form);
        sentence.add_token(token);
    }
    sentence
}

#[test]
fn new_corpus_is_empty() {
    let corpus = Corpus::new();
    assert!(corpus.get_metadata().is_none());
    assert!(corpus.get_docs().is_empty());
    assert!(corpus.get_doc(0).is_none());
}

#[test]
fn created_token_has_no_annotation() {
    let sentence = Corpus::new().create_doc().create_sentence("en");
    let token = sentence.create_token("cats");
    assert_eq!(token.get_form(), "cats");
    assert_eq!(token.get_lemma(), None);
    assert_eq!(token.get_upos(), None);
    assert_eq!(token.get_xpos(), None);
    assert_eq!(token.get_feats(), None);
    assert_eq!(token.get_head(), None);
    assert_eq!(token.get_deprel(), None);
    assert_eq!(token.get_deps(), None);
    assert_eq!(token.get_misc(), None);
}

#[test]
fn annotation_is_set_and_removed() {
    let sentence = Corpus::new().create_doc().create_sentence("en");
    let mut token = sentence.create_token("cats");
    token.set_lemma("cat");
    token.set_upos("NOUN");
    token.set_xpos("NNS");
    token.set_feats("Number=Plur");
    token.set_head("2");
    token.set_deprel("obj");
    token.set_deps("2:obj");
    token.set_misc("SpaceAfter=No");
    assert_eq!(token.get_lemma(), Some("cat"));
    assert_eq!(token.get_upos(), Some("NOUN"));
    assert_eq!(token.get_xpos(), Some("NNS"));
    assert_eq!(token.get_feats(), Some("Number=Plur"));
    assert_eq!(token.get_head(), Some("2"));
    assert_eq!(token.get_deprel(), Some("obj"));
    assert_eq!(token.get_deps(), Some("2:obj"));
    assert_eq!(token.get_misc(), Some("SpaceAfter=No"));
    token.remove_lemma();
    token.remove_deps();
    assert_eq!(token.get_lemma(), None);
    assert_eq!(token.get_deps(), None);
    assert_eq!(token.get_upos(), Some("NOUN"));
    assert_eq!(token.get_form(), "cats");
    token.remove_upos();
    assert_eq!(token.get_upos(), None);
    assert_eq!(token.get_xpos(), Some("NNS"));
    token.remove_xpos();
    assert_eq!(token.get_xpos(), None);
    assert_eq!(token.get_feats(), Some("Number=Plur"));
    token.remove_feats();
    assert_eq!(token.get_feats(), None);
    assert_eq!(token.get_head(), Some("2"));
    token.remove_head();
    assert_eq!(token.get_head(), None);
    assert_eq!(token.get_deprel(), Some("obj"));
    token.remove_deprel();
    assert_eq!(token.get_deprel(), None);
    assert_eq!(token.get_misc(), Some("SpaceAfter=No"));
    token.remove_misc();
    assert_eq!(token.get_misc(), None);
    assert_eq!(token.get_form(), "cats");
    // taking away what is not there changes nothing
    token.remove_misc();
    assert_eq!(token.get_misc(), None);
}

#[test]
fn form_is_edited_in_place() {
    let sentence = Corpus::new().create_doc().create_sentence("en");
    let mut token = sentence.create_token("cat");
    token.get_form_mut().push('s');
    assert_eq!(token.get_form(), "cats");
}

#[test]
fn tokens_are_numbered_from_zero() {
    let mut doc = Corpus::new().create_doc();
    let sentence = sentence_of(&mut doc, "en", &["I", "like", "cats", "."]);
    let ids: Vec<u32> = sentence.tokens().iter().map(|t| corporeum::ident::Identified::id(t)).collect();
    assert_eq!(ids, vec![0, 1, 2, 3]);
    assert_eq!(sentence.to_text(), "I like cats .");
    assert_eq!(sentence.lang(), "en");
}

#[test]
fn token_with_empty_form_is_dropped() {
    let mut sentence = Corpus::new().create_doc().create_sentence("en");
    let token = sentence.create_token("");
    sentence.add_token(token);
    assert!(sentence.tokens().is_empty());
    assert_eq!(sentence.to_text(), "");
}

#[test]
fn text_of_one_token_has_no_space() {
    let mut doc = Corpus::new().create_doc();
    let sentence = sentence_of(&mut doc, "en", &["Hello"]);
    assert_eq!(sentence.to_text(), "Hello");
}

#[test]
fn attach_document_without_sentences_fails() {
    let mut corpus = Corpus::new();
    let doc = corpus.create_doc();
    let err = corpus.add_doc(doc).unwrap_err();
    assert!(matches!(err, CorporeumError::EmptyObject(_)));
    assert_eq!(err.message(), "Empty Object: Document has no sentences in it");
    assert!(corpus.get_docs().is_empty());
}

#[test]
fn attach_sentence_without_tokens_fails() {
    let mut doc = Corpus::new().create_doc();
    let sentence = doc.create_sentence("en");
    let id = sentence.sentence_id();
    let err = doc.add_sentence(sentence).unwrap_err();
    assert!(matches!(err, CorporeumError::EmptyObject(_)));
    assert_eq!(err.message(), "Empty Object: Sentence has no tokens in it");
    assert!(doc.get_sentences().is_empty());
    assert!(doc.get_sentence(id).is_none());
}

#[test]
fn attach_translation_without_tokens_fails() {
    let mut doc = Corpus::new().create_doc();
    let mut sentence = sentence_of(&mut doc, "en", &["Hello"]);
    let translation = sentence.create_translation("cs");
    let err = sentence.add_translation(translation).unwrap_err();
    assert!(matches!(err, CorporeumError::EmptyObject(_)));
    assert_eq!(err.message(), "Empty Object: Translation has no tokens in it");
    assert!(sentence.translations().is_empty());
}

#[test]
fn children_attached_in_turn_are_numbered_from_zero() {
    let mut corpus = Corpus::new();
    for _ in 0..5 {
        let mut doc = corpus.create_doc();
        for _ in 0..3 {
            let mut sentence = sentence_of(&mut doc, "en", &["a", "b"]);
            for _ in 0..2 {
                let mut translation = sentence.create_translation("cs");
                let token = translation.create_token("x");
                translation.add_token(token);
                sentence.add_translation(translation).unwrap();
            }
            let ids: Vec<u32> = sentence.translations().iter().map(|t| t.sentence_id()).collect();
            assert_eq!(ids, vec![0, 1]);
            doc.add_sentence(sentence).unwrap();
        }
        let ids: Vec<u32> = doc.get_sentences().iter().map(|s| s.sentence_id()).collect();
        assert_eq!(ids, vec![0, 1, 2]);
        corpus.add_doc(doc).unwrap();
    }
    let ids: Vec<u32> = corpus.get_docs().iter().map(|d| d.get_doc_id()).collect();
    assert_eq!(ids, vec![0, 1, 2, 3, 4]);
}

#[test]
fn next_id_is_one_more_than_the_greatest() {
    let mut corpus = Corpus::new();
    for _ in 0..3 {
        let mut doc = corpus.create_doc();
        let sentence = sentence_of(&mut doc, "en", &["a"]);
        doc.add_sentence(sentence).unwrap();
        corpus.add_doc(doc).unwrap();
    }
    // the greatest id stands first once the documents are turned around
    corpus.get_docs_mut().reverse();
    assert_eq!(corpus.create_doc().get_doc_id(), 3);
    corpus.remove_document(1).unwrap();
    assert_eq!(corpus.create_doc().get_doc_id(), 3);
    corpus.remove_document(2).unwrap();
    assert_eq!(corpus.create_doc().get_doc_id(), 1);
}

#[test]
fn two_children_created_before_attaching_share_an_id() {
    let mut corpus = Corpus::new();
    let first = corpus.create_doc();
    let second = corpus.create_doc();
    assert_eq!(first.get_doc_id(), 0);
    assert_eq!(second.get_doc_id(), 0);
}

#[test]
fn removed_document_is_not_found_again() {
    let mut corpus = Corpus::new();
    for _ in 0..3 {
        let mut doc = corpus.create_doc();
        let sentence = sentence_of(&mut doc, "en", &["a"]);
        doc.add_sentence(sentence).unwrap();
        corpus.add_doc(doc).unwrap();
    }
    corpus.remove_document(1).unwrap();
    assert!(corpus.get_doc(1).is_none());
    // the others keep their ids
    assert_eq!(corpus.get_doc(0).unwrap().get_doc_id(), 0);
    assert_eq!(corpus.get_doc(2).unwrap().get_doc_id(), 2);
    assert_eq!(corpus.get_docs().len(), 2);
}

#[test]
fn removing_an_unknown_document_fails_and_changes_nothing() {
    let mut corpus = Corpus::new();
    let mut doc = corpus.create_doc();
    let sentence = sentence_of(&mut doc, "en", &["a"]);
    doc.add_sentence(sentence).unwrap();
    corpus.add_doc(doc).unwrap();
    let err = corpus.remove_document(7).unwrap_err();
    assert!(matches!(err, CorporeumError::ElementNotFound(_)));
    assert_eq!(err.message(), "Element not found: Document with ID 7 does not exist");
    assert_eq!(corpus.get_docs().len(), 1);
    assert!(corpus.get_doc(0).is_some());
}

#[test]
fn removal_goes_by_id_and_not_by_place() {
    let mut corpus = Corpus::new();
    for _ in 0..3 {
        let mut doc = corpus.create_doc();
        let sentence = sentence_of(&mut doc, "en", &["a"]);
        doc.add_sentence(sentence).unwrap();
        corpus.add_doc(doc).unwrap();
    }
    corpus.remove_document(0).unwrap();
    // ids 1 and 2 are left, at places 0 and 1
    corpus.remove_document(2).unwrap();
    let ids: Vec<u32> = corpus.get_docs().iter().map(|d| d.get_doc_id()).collect();
    assert_eq!(ids, vec![1]);
    assert!(corpus.remove_document(0).is_err());
}

#[test]
fn removed_sentence_is_not_found_again() {
    let mut doc = Corpus::new().create_doc();
    for _ in 0..3 {
        let sentence = sentence_of(&mut doc, "en", &["a"]);
        doc.add_sentence(sentence).unwrap();
    }
    doc.remove_sentence(0).unwrap();
    assert!(doc.get_sentence(0).is_none());
    assert!(doc.get_sentence(1).is_some());
    let err = doc.remove_sentence(0).unwrap_err();
    assert_eq!(err.message(), "Element not found: Sentence with ID 0 does not exist");
    assert_eq!(doc.get_sentences().len(), 2);
}

#[test]
fn removed_translation_is_not_found_again() {
    let mut doc = Corpus::new().create_doc();
    let mut sentence = sentence_of(&mut doc, "en", &["cats"]);
    for lang in ["cs", "de"] {
        let mut translation = sentence.create_translation(lang);
        let token = translation.create_token("x");
        translation.add_token(token);
        sentence.add_translation(translation).unwrap();
    }
    assert_eq!(sentence.translation(1).unwrap().lang(), "de");
    sentence.remove_translation(0).unwrap();
    assert!(sentence.translation(0).is_none());
    assert_eq!(sentence.translation(1).unwrap().lang(), "de");
    let err = sentence.remove_translation(5).unwrap_err();
    assert_eq!(err.message(), "Element not found: Translation with ID 5 does not exist");
    assert_eq!(sentence.translations().len(), 1);
}

#[test]
fn children_are_edited_in_place() {
    let mut corpus = Corpus::new();
    let mut doc = corpus.create_doc();
    let mut sentence = sentence_of(&mut doc, "en", &["cats"]);
    let mut translation = sentence.create_translation("cs");
    let token = translation.create_token("kocky");
    translation.add_token(token);
    sentence.add_translation(translation).unwrap();
    doc.add_sentence(sentence).unwrap();
    corpus.add_doc(doc).unwrap();

    let doc = corpus.get_doc_mut(0).unwrap();
    doc.set_source("a book");
    doc.set_description("chapter one");
    let sentence = doc.get_sentence_mut(0).unwrap();
    let token = sentence.create_token("purr");
    sentence.add_token(token);
    let translation = sentence.get_translation_mut(0).unwrap();
    let token = translation.create_token("predou");
    translation.add_token(token);
    assert!(sentence.get_translation_mut(9).is_none());
    sentence.translations_mut().clear();
    assert!(doc.get_sentence_mut(4).is_none());
    assert!(corpus.get_doc_mut(3).is_none());

    let doc = corpus.get_doc(0).unwrap();
    assert_eq!(doc.source(), Some("a book"));
    assert_eq!(doc.description(), Some("chapter one"));
    let sentence = doc.get_sentence(0).unwrap();
    assert_eq!(sentence.to_text(), "cats purr");
    assert!(sentence.translations().is_empty());
}
