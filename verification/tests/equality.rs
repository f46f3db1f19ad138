use corporeum::{Author, Corpus};

fn small(form: &str) -> Corpus {
    let mut corpus = Corpus::new();
    corpus.add_metadata("Cats");
    corpus.get_metadata_mut().unwrap().add_author("Ada", "Lovelace", None).unwrap();
    let mut doc = corpus.create_doc();
    let mut sentence = doc.create_sentence("en");
    let token = sentence.create_token(form);
    sentence.add_token(token);
    let mut translation = sentence.create_translation("cs");
    let token = translation.create_token("x");
    translation.add_token(token);
    sentence.add_translation(translation).unwrap();
    doc.add_sentence(sentence).unwrap();
    corpus.add_doc(doc).unwrap();
    corpus
}

#[test]
fn corpora_that_hold_the_same_are_equal() {
    assert_eq!(Corpus::new(), Corpus::default());
    assert_eq!(small("cats"), small("cats"));
}

#[test]
fn corpora_that_differ_anywhere_are_not_equal() {
    let corpus = small("cats");
    assert_ne!(corpus, Corpus::new());
    assert_ne!(corpus, small("cat"));
    assert_ne!(corpus, small("cats "));

    let mut other = small("cats");
    other.get_metadata_mut().unwrap().set_description("");
    assert_ne!(corpus, other);

    let mut other = small("cats");
    other.get_metadata_mut().unwrap().add_author("Charles", "Babbage", None).unwrap();
    assert_ne!(corpus, other);

    let mut other = small("cats");
    other.get_doc_mut(0).unwrap().set_source("a book");
    assert_ne!(corpus, other);

    let mut other = small("cats");
    let sentence = other.get_doc_mut(0).unwrap().get_sentence_mut(0).unwrap();
    sentence.get_translation_mut(0).unwrap().tokens();
    sentence.translations_mut().clear();
    assert_ne!(corpus, other);

    let mut other = small("cats");
    let sentence = other.get_doc_mut(0).unwrap().get_sentence_mut(0).unwrap();
    let mut token = sentence.create_token("purr");
    token.set_head("0");
    sentence.add_token(token);
    assert_ne!(corpus, other);

    let mut other = small("cats");
    other.get_docs_mut().clear();
    assert_ne!(corpus, other);
}

#[test]
fn authors_are_equal_when_names_and_mail_are() {
    assert_eq!(Author::new("Ada", "Lovelace", None), Author::new("Ada", "Lovelace", None));
    assert_ne!(Author::new("Ada", "Lovelace", None), Author::new("Ada", "Lovelace", Some("")));
    assert_ne!(Author::new("Ada", "Lovelace", None), Author::new("Ada", "Byron", None));
}
