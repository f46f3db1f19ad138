use corporeum::codec::{decode, encode};
use corporeum::{Compression, Corpus, CorporeumError, Format};

fn cats() -> Corpus {
    let mut corpus = Corpus::new();
    let mut doc = corpus.create_doc();
    for text in [["I", "like", "cats", "."], ["Cats", "like", "me", "."]] {
        let mut sentence = doc.create_sentence("en");
        for form in text {
            let token = sentence.create_token(form);
            sentence.add_token(token);
        }
        doc.add_sentence(sentence).unwrap();
    }
    corpus.add_doc(doc).unwrap();
    corpus
}

fn rich() -> Corpus {
    let mut corpus = cats();
    corpus.add_metadata("Cats");
    let meta = corpus.get_metadata_mut().unwrap();
    meta.set_description("What \"cats\" like,\nand what likes them: \u{1F408}");
    meta.add_author("Ada", "Lovelace", Some("ada@example.org")).unwrap();
    meta.add_author("Charles", "Babbage", None).unwrap();
    let doc = corpus.get_doc_mut(0).unwrap();
    doc.set_source("a book");
    doc.set_description("chapter one");
    let sentence = doc.get_sentence_mut(1).unwrap();
    let mut translation = sentence.create_translation("cs");
    for form in ["Ko\u{10d}ky", "m\u{11b}", "maj\u{ed}", "r\u{e1}dy", "."] {
        let mut token = translation.create_token(form);
        token.set_misc("SpaceAfter=No");
        translation.add_token(token);
    }
    sentence.add_translation(translation).unwrap();
    let mut token = sentence.create_token("purr");
    token.set_lemma("purr");
    token.set_upos("VERB");
    token.set_xpos("VBP");
    token.set_feats("Mood=Ind");
    token.set_head("0");
    token.set_deprel("root");
    token.set_deps("0:root");
    token.set_misc("");
    sentence.add_token(token);
    corpus
}

fn forms(corpus: &Corpus, doc: u32, sentence: u32) -> Vec<String> {
    corpus
        .get_doc(doc)
        .unwrap()
        .get_sentence(sentence)
        .unwrap()
        .tokens()
        .iter()
        .map(|t| t.get_form().to_string())
        .collect()
}

#[test]
fn compact_binary_with_deflate_round_trip() {
    let corpus = cats();
    let bytes = encode(&corpus, Format::Cbor, Some(Compression::Flate2), false).unwrap();
    let loaded = decode(&bytes, Format::Cbor, Some(Compression::Flate2)).unwrap();
    let doc = loaded.get_doc(0).unwrap();
    assert_eq!(doc.get_doc_id(), 0);
    assert_eq!(doc.get_sentences().len(), 2);
    assert_eq!(forms(&loaded, 0, 0), vec!["I", "like", "cats", "."]);
    assert_eq!(forms(&loaded, 0, 1), vec!["Cats", "like", "me", "."]);
    assert!(loaded.get_metadata().is_none());
}

#[test]
fn every_codec_and_compression_round_trips() {
    let corpus = rich();
    for format in [Format::Json, Format::Cbor] {
        for compression in [None, Some(Compression::Flate2)] {
            for pretty in [false, true] {
                let bytes = encode(&corpus, format, compression, pretty).unwrap();
                let loaded = decode(&bytes, format, compression).unwrap();
                assert_eq!(corpus, loaded);
                let meta = loaded.get_metadata().unwrap();
                assert_eq!(meta.corpus_name(), "Cats");
                assert_eq!(meta.version(), 1);
                assert_eq!(
                    meta.description(),
                    Some("What \"cats\" like,\nand what likes them: \u{1F408}")
                );
                assert_eq!(meta.authors().len(), 2);
                assert_eq!(meta.author("Ada", "Lovelace").unwrap().mail(), Some("ada@example.org"));
                assert_eq!(meta.author("Charles", "Babbage").unwrap().mail(), None);
                let doc = loaded.get_doc(0).unwrap();
                assert_eq!(doc.source(), Some("a book"));
                assert_eq!(doc.description(), Some("chapter one"));
                let sentence = doc.get_sentence(1).unwrap();
                assert_eq!(sentence.lang(), "en");
                assert_eq!(sentence.to_text(), "Cats like me . purr");
                let token = &sentence.tokens()[4];
                assert_eq!(token.get_lemma(), Some("purr"));
                assert_eq!(token.get_upos(), Some("VERB"));
                assert_eq!(token.get_xpos(), Some("VBP"));
                assert_eq!(token.get_feats(), Some("Mood=Ind"));
                assert_eq!(token.get_head(), Some("0"));
                assert_eq!(token.get_deprel(), Some("root"));
                assert_eq!(token.get_deps(), Some("0:root"));
                assert_eq!(token.get_misc(), Some(""));
                assert_eq!(sentence.tokens()[0].get_lemma(), None);
                let translation = sentence.translation(0).unwrap();
                assert_eq!(translation.lang(), "cs");
                assert_eq!(translation.to_text(), "Ko\u{10d}ky m\u{11b} maj\u{ed} r\u{e1}dy .");
                assert_eq!(translation.tokens()[1].get_misc(), Some("SpaceAfter=No"));
            }
        }
    }
}

#[test]
fn empty_corpus_round_trips() {
    let corpus = Corpus::new();
    assert_eq!(encode(&corpus, Format::Json, None, false).unwrap(), b"{}");
    assert_eq!(encode(&corpus, Format::Cbor, None, false).unwrap(), vec![0xa0]);
    for format in [Format::Json, Format::Cbor] {
        let bytes = encode(&corpus, format, Some(Compression::Flate2), false).unwrap();
        let loaded = decode(&bytes, format, Some(Compression::Flate2)).unwrap();
        assert!(loaded.get_metadata().is_none());
        assert!(loaded.get_docs().is_empty());
    }
}

#[test]
fn json_leaves_out_what_is_empty() {
    let mut corpus = Corpus::new();
    let mut doc = corpus.create_doc();
    let mut sentence = doc.create_sentence("en");
    let mut token = sentence.create_token("Hi");
    token.set_lemma("hi");
    sentence.add_token(token);
    doc.add_sentence(sentence).unwrap();
    corpus.add_doc(doc).unwrap();
    let text = String::from_utf8(encode(&corpus, Format::Json, None, false).unwrap()).unwrap();
    assert_eq!(
        text,
        r#"{"documents":[{"id":0,"sentences":[{"id":0,"lang":"en","tokens":[{"id":0,"form":"Hi","lemma":"hi"}]}]}]}"#
    );
    corpus.add_metadata("Greetings");
    let text = String::from_utf8(encode(&corpus, Format::Json, None, false).unwrap()).unwrap();
    assert_eq!(
        text,
        r#"{"metadata":{"name":"Greetings","version":1},"documents":[{"id":0,"sentences":[{"id":0,"lang":"en","tokens":[{"id":0,"form":"Hi","lemma":"hi"}]}]}]}"#
    );
}

#[test]
fn pretty_json_is_indented() {
    let mut corpus = Corpus::new();
    corpus.add_metadata("Cats");
    let text = String::from_utf8(encode(&corpus, Format::Json, None, true).unwrap()).unwrap();
    assert_eq!(text, "{\n  \"metadata\": {\n    \"name\": \"Cats\",\n    \"version\": 1\n  }\n}");
    // CBOR knows no indentation
    assert_eq!(
        encode(&corpus, Format::Cbor, None, true).unwrap(),
        encode(&corpus, Format::Cbor, None, false).unwrap()
    );
}

#[test]
fn cbor_of_a_small_corpus() {
    let mut corpus = Corpus::new();
    corpus.add_metadata("C");
    let bytes = encode(&corpus, Format::Cbor, None, false).unwrap();
    // {"metadata": {"name": "C", "version": 1}}
    let mut expected = vec![0xa1, 0x68];
    expected.extend_from_slice(b"metadata");
    expected.extend_from_slice(&[0xa2, 0x64]);
    expected.extend_from_slice(b"name");
    expected.extend_from_slice(&[0x61, b'C', 0x67]);
    expected.extend_from_slice(b"version");
    expected.push(0x01);
    assert_eq!(bytes, expected);
}

#[test]
fn saving_twice_gives_the_same_bytes() {
    let corpus = rich();
    for format in [Format::Json, Format::Cbor] {
        for compression in [None, Some(Compression::Flate2)] {
            let first = encode(&corpus, format, compression, false).unwrap();
            let second = encode(&corpus, format, compression, false).unwrap();
            assert_eq!(first, second);
        }
    }
}

#[test]
fn absent_and_null_fields_are_read_as_empty() {
    let text = br#"{"metadata": null, "unknown": [1, {"x": true}],
        "documents": [{"id": 4, "source": null, "sentences": [
            {"id": 2, "lang": "en", "tokens": null, "translations": []},
            {"id": 3, "lang": "de", "tokens": [{"id": 0, "form": "", "lemma": null}]}]}]}"#;
    let corpus = decode(text, Format::Json, None).unwrap();
    assert!(corpus.get_metadata().is_none());
    let doc = corpus.get_doc(4).unwrap();
    assert_eq!(doc.source(), None);
    assert_eq!(doc.description(), None);
    let sentence = doc.get_sentence(2).unwrap();
    assert!(sentence.tokens().is_empty());
    assert!(sentence.translations().is_empty());
    let sentence = doc.get_sentence(3).unwrap();
    assert_eq!(sentence.tokens().len(), 1);
    assert_eq!(sentence.tokens()[0].get_form(), "");
    assert_eq!(sentence.tokens()[0].get_lemma(), None);
}

#[test]
fn timestamps_are_read_and_written() {
    let text = br#"{"metadata":{"created":-5,"modified":1700000000,"name":"Cats","version":65535}}"#;
    let corpus = decode(text, Format::Json, None).unwrap();
    let meta = corpus.get_metadata().unwrap();
    assert_eq!(meta.created(), Some(-5));
    assert_eq!(meta.modified(), Some(1_700_000_000));
    assert_eq!(meta.version(), 65535);
    assert_eq!(encode(&corpus, Format::Json, None, false).unwrap(), text);
}

fn semantic(text: &[u8]) -> String {
    match decode(text, Format::Json, None).unwrap_err() {
        CorporeumError::FailedToParseSemantic(None, why) => why,
        other => panic!("{other:?}"),
    }
}

#[test]
fn what_is_no_corpus_is_refused() {
    assert_eq!(semantic(b"[]"), "invalid value for corpus");
    assert_eq!(semantic(b"5"), "invalid value for corpus");
    assert_eq!(semantic(br#"{"documents": 5}"#), "invalid value for documents");
    assert_eq!(semantic(br#"{"documents": [5]}"#), "invalid value for document");
    assert_eq!(semantic(br#"{"documents": [{}]}"#), "missing field id");
    assert_eq!(semantic(br#"{"documents": [{"id": -1}]}"#), "invalid value for id");
    assert_eq!(semantic(br#"{"documents": [{"id": 4294967296}]}"#), "invalid value for id");
    assert_eq!(semantic(br#"{"documents": [{"id": "0"}]}"#), "invalid value for id");
    assert_eq!(semantic(br#"{"documents": [{"id": 0, "source": 1}]}"#), "invalid value for source");
    assert_eq!(
        semantic(br#"{"documents": [{"id": 0, "sentences": [{"id": 0}]}]}"#),
        "missing field lang"
    );
    assert_eq!(
        semantic(br#"{"documents": [{"id": 0, "sentences": [{"id": 0, "lang": "en", "tokens": [{"id": 0}]}]}]}"#),
        "missing field form"
    );
    assert_eq!(
        semantic(br#"{"documents": [{"id": 0, "sentences": [{"id": 0, "lang": "en", "tokens": [{"id": 0, "form": "a", "upos": []}]}]}]}"#),
        "invalid value for upos"
    );
    assert_eq!(
        semantic(br#"{"documents": [{"id": 0, "sentences": [{"id": 0, "lang": "en", "translations": [7]}]}]}"#),
        "invalid value for translation"
    );
    assert_eq!(semantic(br#"{"metadata": {"version": 1}}"#), "missing field name");
    assert_eq!(semantic(br#"{"metadata": {"name": "x"}}"#), "missing field version");
    assert_eq!(semantic(br#"{"metadata": {"name": "x", "version": 65536}}"#), "invalid value for version");
    assert_eq!(semantic(br#"{"metadata": 1}"#), "invalid value for metadata");
    assert_eq!(
        semantic(br#"{"metadata": {"name": "x", "version": 1, "authors": [{"first_name": "A"}]}}"#),
        "missing field last_name"
    );
    // the first failure is the one reported
    assert_eq!(semantic(br#"{"documents": [{"id": 0}, {"id": "x"}, {}]}"#), "invalid value for id");
}

#[test]
fn metadata_that_names_an_author_twice_is_refused() {
    let text = br#"{"metadata": {"name": "x", "version": 1, "authors": [
        {"first_name": "Ada", "last_name": "Lovelace"},
        {"first_name": "Ada", "last_name": "Byron"},
        {"first_name": "Ada", "last_name": "Lovelace", "mail": "ada@example.org"}]}}"#;
    assert_eq!(semantic(text), "invalid value for authors");
}

#[test]
fn values_that_no_corpus_holds_are_refused() {
    assert_eq!(semantic(br#"{"documents": [], "weight": 1.5}"#), "value of a kind that no corpus holds");
    assert_eq!(semantic(br#"{"big": 18446744073709551615}"#), "value of a kind that no corpus holds");
    // CBOR: raw bytes, and a key that is no text
    let err = decode(&[0xa1, 0x61, b'x', 0x41, 0x00], Format::Cbor, None).unwrap_err();
    assert_eq!(err.message(), "Semantic: None, value of a kind that no corpus holds");
    let err = decode(&[0xa1, 0x01, 0x02], Format::Cbor, None).unwrap_err();
    assert_eq!(err.message(), "Semantic: None, value of a kind that no corpus holds");
}

#[test]
fn json_syntax_errors_tell_the_offset() {
    let err = decode(b"{\"documents\": [}", Format::Json, None).unwrap_err();
    assert!(matches!(err, CorporeumError::SyntaxError(16)), "{err:?}");
    assert_eq!(err.message(), "Syntax Error at offset 16");
    let err = decode(b"{\n  \"documents\": [\n    }", Format::Json, None).unwrap_err();
    assert!(matches!(err, CorporeumError::SyntaxError(24)), "{err:?}");
    // the text ends early
    let err = decode(b"{\"documents\": [", Format::Json, None).unwrap_err();
    assert!(matches!(err, CorporeumError::SyntaxError(15)), "{err:?}");
    let err = decode(b"", Format::Json, None).unwrap_err();
    assert!(matches!(err, CorporeumError::SyntaxError(0)), "{err:?}");
    // something follows the corpus
    let err = decode(b"{} {}", Format::Json, None).unwrap_err();
    assert!(matches!(err, CorporeumError::SyntaxError(4)), "{err:?}");
}

#[test]
fn input_nested_too_deeply_is_refused() {
    let text = "[".repeat(200) + &"]".repeat(200);
    let err = decode(text.as_bytes(), Format::Json, None).unwrap_err();
    assert!(matches!(err, CorporeumError::FailedToParseRecursionLimitExceeded), "{err:?}");
    assert_eq!(err.message(), "Recursion limit exceeded");
    let bytes = vec![0x81; 300];
    let err = decode(&bytes, Format::Cbor, None).unwrap_err();
    assert!(matches!(err, CorporeumError::FailedToParseRecursionLimitExceeded), "{err:?}");
}

#[test]
fn cbor_errors_are_told_apart() {
    // a map of one entry that ends after the key
    let err = decode(&[0xa1, 0x61, b'x'], Format::Cbor, None).unwrap_err();
    assert!(matches!(err, CorporeumError::Io(_)), "{err:?}");
    assert!(err.message().starts_with("I/O: "));
    // a text that is no UTF-8
    let err = decode(&[0xa1, 0x61, 0xff, 0x01], Format::Cbor, None).unwrap_err();
    assert!(matches!(err, CorporeumError::SyntaxError(1)), "{err:?}");
    // a break where a value must stand
    let err = decode(&[0xff], Format::Cbor, None).unwrap_err();
    assert!(matches!(err, CorporeumError::FailedToParseSemantic(..)), "{err:?}");
    // a value that is no corpus
    let err = decode(&[0x05], Format::Cbor, None).unwrap_err();
    assert_eq!(err.message(), "Semantic: None, invalid value for corpus");
}

#[test]
fn compressed_bytes_are_not_read_as_plain_ones() {
    let corpus = cats();
    let bytes = encode(&corpus, Format::Json, Some(Compression::Flate2), false).unwrap();
    let err = decode(&bytes, Format::Json, None).unwrap_err();
    assert!(matches!(err, CorporeumError::SyntaxError(_)), "{err:?}");
    let plain = encode(&corpus, Format::Json, None, false).unwrap();
    let err = decode(&plain, Format::Json, Some(Compression::Flate2)).unwrap_err();
    assert!(matches!(err, CorporeumError::DecompressionError(_)), "{err:?}");
    // what is wrong inside the compression is the codec's to report
    let packed = corporeum::compression::pack(b"{".to_vec(), Some(Compression::Flate2)).unwrap();
    let err = decode(&packed, Format::Json, Some(Compression::Flate2)).unwrap_err();
    assert!(matches!(err, CorporeumError::SyntaxError(1)), "{err:?}");
}

#[test]
fn codecs_without_backend_are_refused() {
    let corpus = cats();
    for (format, name) in [(Format::Xml, "xml"), (Format::Rmp, "msgpack"), (Format::Bincode, "bincode")] {
        let err = encode(&corpus, format, None, false).unwrap_err();
        assert_eq!(err.message(), format!("Unsupported format: {name}"));
        let err = decode(b"{}", format, None).unwrap_err();
        assert_eq!(err.message(), format!("Unsupported format: {name}"));
    }
    let err = encode(&corpus, Format::Json, Some(Compression::Zstd), false).unwrap_err();
    assert_eq!(err.message(), "Unsupported format: zstd");
    let err = decode(b"{}", Format::Xml, Some(Compression::Lzma2)).unwrap_err();
    assert_eq!(err.message(), "Unsupported format: lzma2");
}

#[test]
fn corpus_saves_and_loads_json() {
    let corpus = rich();
    for compression in [false, true] {
        for pretty in [false, true] {
            let bytes = corpus.save_stream(compression, pretty).unwrap();
            let loaded = Corpus::load(&bytes, compression).unwrap();
            assert_eq!(corpus, loaded);
            let mut dest = b"head".to_vec();
            corpus.save_into(&mut dest, compression, pretty).unwrap();
            assert_eq!(&dest[..4], b"head");
            assert_eq!(&dest[4..], &bytes[..]);
        }
    }
    assert!(Corpus::load(b"{", false).is_err());
    assert!(Corpus::load(b"{}", true).is_err());
}

#[test]
fn corpus_saved_into_a_buffer_is_loaded_again() {
    let corpus = cats();
    for compression in [false, true] {
        for pretty in [false, true] {
            let mut buf = Vec::new();
            corpus.save_into(&mut buf, compression, pretty).unwrap();
            let loaded = Corpus::load(&buf, compression).unwrap();
            assert_eq!(loaded, corpus);
            assert_eq!(loaded.get_docs().len(), 1);
            let doc = loaded.get_doc(0).unwrap();
            assert_eq!(doc.get_doc_id(), 0);
            assert_eq!(doc.get_sentences().len(), 2);
            let ids: Vec<u32> = doc.get_sentences().iter().map(|s| s.sentence_id()).collect();
            assert_eq!(ids, vec![0, 1]);
            assert_eq!(forms(&loaded, 0, 0), vec!["I", "like", "cats", "."]);
            assert_eq!(forms(&loaded, 0, 1), vec!["Cats", "like", "me", "."]);
            for sentence in doc.get_sentences() {
                let ids: Vec<u32> = sentence.tokens().iter().map(|t| t.token_id()).collect();
                assert_eq!(ids, vec![0, 1, 2, 3]);
            }
        }
    }
}

#[test]
fn saving_into_two_buffers_gives_the_same_bytes() {
    let corpus = rich();
    for compression in [false, true] {
        for pretty in [false, true] {
            let mut first = Vec::new();
            let mut second = Vec::new();
            corpus.save_into(&mut first, compression, pretty).unwrap();
            corpus.save_into(&mut second, compression, pretty).unwrap();
            assert_eq!(first, second);
            // a corpus that holds the same is saved as the same bytes
            let mut third = Vec::new();
            rich().save_into(&mut third, compression, pretty).unwrap();
            assert_eq!(first, third);
            assert_eq!(corpus, rich());
        }
    }
}

#[test]
fn saving_a_stream_leaves_the_corpus_as_it_was() {
    let corpus = rich();
    let bytes = corpus.save_stream(true, false).unwrap();
    assert_eq!(corpus, rich());
    assert_eq!(Corpus::load(&bytes, true).unwrap(), corpus);
}
