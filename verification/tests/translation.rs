use corporeum::ident::Identified;
use corporeum::{SentenceType, Translation};

#[test]
fn translation_numbers_its_words_from_zero() {
    let words = vec!["Ko\u{10d}ky", "m\u{11b}", "maj\u{ed}", "r\u{e1}dy", "."];
    let translation = Translation::new(7, &words, "cs", SentenceType::Target);
    assert_eq!(translation.get_translation_id(), 7);
    assert_eq!(translation.lang(), "cs");
    assert_eq!(translation.sentence_type(), SentenceType::Target);
    let tokens = translation.tokens();
    assert_eq!(tokens.len(), 5);
    for (i, token) in tokens.iter().enumerate() {
        assert_eq!(token.id(), i as u32);
        assert_eq!(token.token_id(), i as u32);
        assert_eq!(token.get_form(), words[i]);
        assert_eq!(token.get_lemma(), None);
    }
}

#[test]
fn translation_of_no_words_has_no_tokens() {
    let translation = Translation::new(0, &Vec::new(), "en", SentenceType::Source);
    assert_eq!(translation.sentence_type(), SentenceType::Source);
    assert!(translation.tokens().is_empty());
}
