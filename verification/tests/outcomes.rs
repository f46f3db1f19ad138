use corporeum::compression::{deflate_outcome, inflate_outcome};
use corporeum::json::{json_error, json_written, offset, JsonCategory, JsonFault};
use corporeum::{Corpus, CorporeumError};

fn fault(category: JsonCategory, line: usize, column: usize, text: &str) -> JsonFault {
    JsonFault { category, line, column, text: text.to_string() }
}

#[test]
fn failed_compression_is_reported_as_such() {
    let err = deflate_outcome(Err("disk on fire".to_string())).unwrap_err();
    assert!(matches!(err, CorporeumError::CompressionError(_)));
    assert_eq!(err.message(), "Zlib: Compression failed: disk on fire");
    assert_eq!(deflate_outcome(Ok(vec![1, 2, 3])).unwrap(), vec![1, 2, 3]);
}

#[test]
fn failed_decompression_is_reported_as_such() {
    let err = inflate_outcome(Err("corrupt deflate stream".to_string())).unwrap_err();
    assert!(matches!(err, CorporeumError::DecompressionError(_)));
    assert_eq!(err.message(), "Zlib: Decompression failed: corrupt deflate stream");
    assert_eq!(inflate_outcome(Ok(vec![1, 2, 3])).unwrap(), vec![1, 2, 3]);
}

#[test]
fn value_that_the_writer_refuses_is_a_bad_value() {
    let err = json_written(Err("key must be a string".to_string())).unwrap_err();
    assert!(matches!(err, CorporeumError::BadValue(_)));
    assert_eq!(err.message(), "Bad Value: key must be a string");
    assert_eq!(json_written(Ok(b"{}".to_vec())).unwrap(), b"{}");
}

#[test]
fn offset_counts_lines_and_columns() {
    let text = b"ab\ncd\n\nef";
    assert_eq!(offset(text, 1, 0), 0);
    assert_eq!(offset(text, 1, 2), 2);
    assert_eq!(offset(text, 2, 0), 3);
    assert_eq!(offset(text, 2, 1), 4);
    assert_eq!(offset(text, 3, 0), 6);
    assert_eq!(offset(text, 4, 2), 9);
    // a line of 0 is taken for the first
    assert_eq!(offset(text, 0, 1), 1);
    // what lies beyond the text is its end
    assert_eq!(offset(text, 4, 3), 9);
    assert_eq!(offset(text, 9, 0), 9);
    assert_eq!(offset(text, 1, usize::MAX), 9);
    assert_eq!(offset(text, usize::MAX, usize::MAX), 9);
    assert_eq!(offset(b"", 1, 1), 0);
}

#[test]
fn reader_failures_are_told_apart() {
    let text = b"{\n\"a\": tru}";
    let err = json_error(text, fault(JsonCategory::Syntax, 2, 8, "expected ident at line 2 column 8"));
    assert!(matches!(err, CorporeumError::SyntaxError(10)), "{err:?}");
    let err = json_error(text, fault(JsonCategory::Eof, 2, 9, "EOF while parsing"));
    assert!(matches!(err, CorporeumError::SyntaxError(11)), "{err:?}");
    let err = json_error(text, fault(JsonCategory::Io, 0, 0, "broken pipe"));
    assert_eq!(err.message(), "I/O: broken pipe");
    let err = json_error(text, fault(JsonCategory::Data, 1, 1, "invalid type"));
    assert!(matches!(err, CorporeumError::FailedToParseSemantic(Some(1), _)), "{err:?}");
    assert_eq!(err.message(), "Semantic: Some(1), invalid type");
    let err = json_error(
        text,
        fault(JsonCategory::Syntax, 1, 1, "recursion limit exceeded at line 1 column 1"),
    );
    assert!(matches!(err, CorporeumError::FailedToParseRecursionLimitExceeded));
    // only what the failure begins with counts, and only for a failure of syntax
    let err = json_error(text, fault(JsonCategory::Syntax, 1, 1, "no recursion limit exceeded"));
    assert!(matches!(err, CorporeumError::SyntaxError(1)));
    let err = json_error(text, fault(JsonCategory::Syntax, 1, 1, "recursion limit"));
    assert!(matches!(err, CorporeumError::SyntaxError(1)));
    let err = json_error(text, fault(JsonCategory::Eof, 1, 1, "recursion limit exceeded"));
    assert!(matches!(err, CorporeumError::SyntaxError(1)));
}

#[test]
fn ids_are_written_out_in_full() {
    let mut corpus = Corpus::new();
    for id in [0u32, 9, 10, 120, 4_294_967_295] {
        let err = corpus.remove_document(id).unwrap_err();
        assert_eq!(err.message(), format!("Element not found: Document with ID {id} does not exist"));
    }
    let mut doc = corpus.create_doc();
    let err = doc.remove_sentence(usize::MAX).unwrap_err();
    assert_eq!(
        err.message(),
        format!("Element not found: Sentence with ID {} does not exist", usize::MAX)
    );
}

#[test]
fn every_error_has_its_text() {
    let cases = [
        (CorporeumError::Io("x".into()), "I/O: x"),
        (CorporeumError::DecompressionError("x".into()), "Zlib: Decompression failed: x"),
        (CorporeumError::CompressionError("x".into()), "Zlib: Compression failed: x"),
        (CorporeumError::EmptyObject("x".into()), "Empty Object: x"),
        (CorporeumError::ElementNotFound("x".into()), "Element not found: x"),
        (CorporeumError::DuplicateElement("x".into()), "Duplicate element: x"),
        (CorporeumError::FailedToParseRecursionLimitExceeded, "Recursion limit exceeded"),
        (CorporeumError::FailedToParseSemantic(None, "x".into()), "Semantic: None, x"),
        (CorporeumError::FailedToParseSemantic(Some(42), "x".into()), "Semantic: Some(42), x"),
        (CorporeumError::SyntaxError(0), "Syntax Error at offset 0"),
        (CorporeumError::SyntaxError(1234567890), "Syntax Error at offset 1234567890"),
        (CorporeumError::BadValue("x".into()), "Bad Value: x"),
        (CorporeumError::UnsupportedFormat("x".into()), "Unsupported format: x"),
    ];
    for (error, text) in cases {
        assert_eq!(error.message(), text);
    }
}
