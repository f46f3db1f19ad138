use corporeum::{Author, Corpus, CorporeumError};

fn corpus_with_metadata() -> Corpus {
    let mut corpus = Corpus::new();
    corpus.add_metadata("Cats");
    corpus
}

#[test]
fn added_metadata_starts_at_version_one() {
    let corpus = corpus_with_metadata();
    let meta = corpus.get_metadata().unwrap();
    assert_eq!(meta.corpus_name(), "Cats");
    assert_eq!(meta.version(), 1);
    assert_eq!(meta.description(), None);
    assert_eq!(meta.created(), None);
    assert_eq!(meta.modified(), None);
    assert!(meta.authors().is_empty());
}

#[test]
fn name_and_description_are_set() {
    let mut corpus = corpus_with_metadata();
    let meta = corpus.get_metadata_mut().unwrap();
    meta.set_corpus_name("Dogs");
    meta.set_description("All about dogs");
    let meta = corpus.get_metadata().unwrap();
    assert_eq!(meta.corpus_name(), "Dogs");
    assert_eq!(meta.description(), Some("All about dogs"));
}

#[test]
fn corpus_without_metadata_lends_none() {
    let mut corpus = Corpus::new();
    assert!(corpus.get_metadata_mut().is_none());
}

#[test]
fn duplicate_author_is_rejected() {
    let mut corpus = corpus_with_metadata();
    let meta = corpus.get_metadata_mut().unwrap();
    meta.add_author("Ada", "Lovelace", None).unwrap();
    let err = meta.add_author("Ada", "Lovelace", Some("ada@example.org")).unwrap_err();
    assert!(matches!(err, CorporeumError::DuplicateElement(_)));
    assert_eq!(err.message(), "Duplicate element: Author Ada Lovelace is already recorded");
    assert_eq!(meta.authors().len(), 1);
    assert_eq!(meta.author("Ada", "Lovelace").unwrap().mail(), None);
}

#[test]
fn authors_that_share_one_name_only_are_accepted() {
    let mut corpus = corpus_with_metadata();
    let meta = corpus.get_metadata_mut().unwrap();
    meta.add_author("Ada", "Lovelace", None).unwrap();
    meta.add_author("Ada", "Byron", None).unwrap();
    meta.add_author("Augusta", "Lovelace", Some("augusta@example.org")).unwrap();
    assert_eq!(meta.authors().len(), 3);
    let author = meta.author("Augusta", "Lovelace").unwrap();
    assert_eq!(author.first_name(), "Augusta");
    assert_eq!(author.last_name(), "Lovelace");
    assert_eq!(author.mail(), Some("augusta@example.org"));
    assert!(meta.author("Augusta", "Byron").is_none());
}

#[test]
fn authors_are_found_by_either_name() {
    let mut corpus = corpus_with_metadata();
    let meta = corpus.get_metadata_mut().unwrap();
    meta.add_author("John", "Kenny", None).unwrap();
    meta.add_author("John", "Smith", None).unwrap();
    meta.add_author("Mary", "Kenny", None).unwrap();
    meta.add_author("Mary", "Smith", None).unwrap();
    let names = |found: Vec<&Author>| -> Vec<String> {
        found.iter().map(|a| format!("{} {}", a.first_name(), a.last_name())).collect()
    };
    assert_eq!(names(meta.find_authors(Some("John"), None)), vec!["John Kenny", "John Smith"]);
    assert_eq!(names(meta.find_authors(None, Some("Kenny"))), vec!["John Kenny", "Mary Kenny"]);
    assert_eq!(
        names(meta.find_authors(Some("John"), Some("Kenny"))),
        vec!["John Kenny", "John Smith", "Mary Kenny"]
    );
    assert!(meta.find_authors(None, None).is_empty());
    assert!(meta.find_authors(Some("Kenny"), None).is_empty());
}

#[test]
fn removed_author_is_not_found_again() {
    let mut corpus = corpus_with_metadata();
    let meta = corpus.get_metadata_mut().unwrap();
    meta.add_author("Ada", "Lovelace", None).unwrap();
    meta.add_author("Charles", "Babbage", None).unwrap();
    meta.add_author("Mary", "Somerville", None).unwrap();
    meta.remove_author("Charles", "Babbage");
    assert!(meta.author("Charles", "Babbage").is_none());
    let left: Vec<&str> = meta.authors().iter().map(|a| a.last_name()).collect();
    assert_eq!(left, vec!["Lovelace", "Somerville"]);
    // nobody of that name: nothing changes
    meta.remove_author("Charles", "Lovelace");
    assert_eq!(meta.authors().len(), 2);
    // a removed author can be added again
    meta.add_author("Charles", "Babbage", None).unwrap();
    assert_eq!(meta.authors().len(), 3);
}

#[test]
fn author_record_keeps_what_it_was_given() {
    let author = Author::new("Ada", "Lovelace", Some("ada@example.org"));
    assert_eq!(author.first_name(), "Ada");
    assert_eq!(author.last_name(), "Lovelace");
    assert_eq!(author.mail(), Some("ada@example.org"));
    assert!(author.is_named("Ada", "Lovelace"));
    assert!(!author.is_named("Ada", "Byron"));
    assert!(!author.is_named("Ad", "Lovelace"));
    assert!(!author.is_named("Adb", "Lovelace"));
}

#[test]
fn adding_metadata_again_starts_over() {
    let mut corpus = corpus_with_metadata();
    corpus.get_metadata_mut().unwrap().add_author("Ada", "Lovelace", None).unwrap();
    corpus.add_metadata("Dogs");
    let meta = corpus.get_metadata().unwrap();
    assert_eq!(meta.corpus_name(), "Dogs");
    assert!(meta.authors().is_empty());
}
