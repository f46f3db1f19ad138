use corporeum::{Compression, Corporeum, CorporeumError, Format};

fn bound(path: &str) -> Corporeum {
    let mut corp = Corporeum::new(path);
    let corpus = corp.corpus_mut();
    let mut doc = corpus.create_doc();
    let mut sentence = doc.create_sentence("en");
    let token = sentence.create_token("Hello");
    sentence.add_token(token);
    doc.add_sentence(sentence).unwrap();
    corpus.add_doc(doc).unwrap();
    corp
}

#[test]
fn new_binding_holds_an_empty_corpus() {
    let corp = Corporeum::new("hello.json");
    assert_eq!(corp.original_file_path(), "hello.json");
    assert!(corp.corpus().get_docs().is_empty());
    assert!(corp.corpus().get_metadata().is_none());
}

#[test]
fn file_is_written_in_what_its_name_tells_of() {
    let corp = bound("dir/hello.cbor.gz");
    let file = corp.file_image(false).unwrap();
    assert_eq!(file.path, "dir/hello.cbor.gz");
    assert_eq!(&file.bytes[..2], &[0x78, 0xda]);
    let back = Corporeum::from_file_image(&file.path, &file.bytes).unwrap();
    assert_eq!(back.original_file_path(), "dir/hello.cbor.gz");
    assert_eq!(back.corpus().get_doc(0).unwrap().get_sentence(0).unwrap().to_text(), "Hello");
}

#[test]
fn saving_twice_writes_the_same_file() {
    let corp = bound("hello.json");
    let first = corp.file_image(false).unwrap();
    let second = corp.file_image(false).unwrap();
    assert_eq!(first.path, second.path);
    assert_eq!(first.bytes, second.bytes);
    assert_eq!(
        String::from_utf8(first.bytes).unwrap(),
        r#"{"documents":[{"id":0,"sentences":[{"id":0,"lang":"en","tokens":[{"id":0,"form":"Hello"}]}]}]}"#
    );
}

#[test]
fn saving_elsewhere_rewrites_the_name() {
    let corp = bound("hello.corp");
    let file = corp
        .file_image_as("other.corp", false, Some((Format::Cbor, Some(Compression::Flate2))))
        .unwrap();
    assert_eq!(file.path, "other.cbor.gz");
    let file = corp.file_image_as("other.json.gz", true, None).unwrap();
    assert_eq!(file.path, "other.json.gz");
    let back = Corporeum::from_file_image(&file.path, &file.bytes).unwrap();
    assert_eq!(back.corpus().get_docs().len(), 1);
    let file = corp.file_image_as("other.json.gz", false, Some((Format::Json, None))).unwrap();
    assert_eq!(file.path, "other.json");
    assert_eq!(file.bytes[0], b'{');
}

#[test]
fn name_that_tells_of_no_codec_is_refused() {
    let corp = bound("hello.corp");
    let err = corp.file_image(false).err().unwrap();
    assert!(matches!(err, CorporeumError::UnsupportedFormat(_)));
    assert_eq!(err.message(), "Unsupported format: corp");
    let err = corp.file_image_as("hello.xz", false, None).err().unwrap();
    assert_eq!(err.message(), "Unsupported format: xz");
    let err = Corporeum::from_file_image("hello.corp", b"{}").err().unwrap();
    assert_eq!(err.message(), "Unsupported format: corp");
    let err = Corporeum::from_file_image("hello.xml", b"<corpus/>").err().unwrap();
    assert_eq!(err.message(), "Unsupported format: xml");
    let err = Corporeum::from_file_image("hello.json", b"<corpus/>").err().unwrap();
    assert!(matches!(err, CorporeumError::SyntaxError(1)));
}

#[test]
fn saving_again_succeeds_and_writes_the_same_file() {
    for path in ["a/hello.json", "hello.json.gz", "hello.cbor", "hello.cbor.gz"] {
        let corp = bound(path);
        let first = corp.file_image(false).unwrap();
        let second = corp.file_image(false).unwrap();
        assert_eq!(first.path, path);
        assert_eq!(second.path, first.path);
        assert_eq!(second.bytes, first.bytes);
        assert_eq!(corp.original_file_path(), path);
    }
}
