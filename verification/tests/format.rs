use corporeum::format::{infer, split_extension, target_path};
use corporeum::{Compression, Format};

#[test]
fn extension_is_what_follows_the_last_dot_of_the_name() {
    assert_eq!(split_extension("corpus.json"), Some(("corpus", "json")));
    assert_eq!(split_extension("a.b/corpus.cbor.gz"), Some(("a.b/corpus.cbor", "gz")));
    assert_eq!(split_extension("corpus."), Some(("corpus", "")));
    assert_eq!(split_extension("k\u{f3}rpus.\u{10d}s"), Some(("k\u{f3}rpus", "\u{10d}s")));
    assert_eq!(split_extension("corpus"), None);
    assert_eq!(split_extension(""), None);
    assert_eq!(split_extension(".hidden"), None);
    assert_eq!(split_extension("dir/.hidden"), None);
    assert_eq!(split_extension("a.b/corpus"), None);
    assert_eq!(split_extension("corpus.json/"), None);
    assert_eq!(split_extension(".hidden.json"), Some((".hidden", "json")));
}

#[test]
fn codec_and_compression_are_told_from_the_name() {
    assert_eq!(infer("corpus.json").unwrap(), (Format::Json, None));
    assert_eq!(infer("corpus.cbor").unwrap(), (Format::Cbor, None));
    assert_eq!(infer("corpus.xml").unwrap(), (Format::Xml, None));
    assert_eq!(infer("corpus.msgpack").unwrap(), (Format::Rmp, None));
    assert_eq!(infer("corpus.bincode").unwrap(), (Format::Bincode, None));
    assert_eq!(infer("corpus.json.gz").unwrap(), (Format::Json, Some(Compression::Flate2)));
    assert_eq!(infer("dir.d/corpus.cbor.zst").unwrap(), (Format::Cbor, Some(Compression::Zstd)));
    assert_eq!(infer("corpus.cbor.xz").unwrap(), (Format::Cbor, Some(Compression::Lzma2)));
    assert_eq!(infer("corpus.cbor.lzma").unwrap(), (Format::Cbor, Some(Compression::Lzma2)));
}

#[test]
fn names_that_tell_of_no_codec_are_refused() {
    assert_eq!(infer("corpus.txt").unwrap_err().message(), "Unsupported format: txt");
    assert_eq!(infer("corpus").unwrap_err().message(), "Unsupported format: ");
    assert_eq!(infer("corpus.gz").unwrap_err().message(), "Unsupported format: gz");
    assert_eq!(infer("corpus.tar.gz").unwrap_err().message(), "Unsupported format: tar");
    assert_eq!(infer("corpus.JSON").unwrap_err().message(), "Unsupported format: JSON");
    assert_eq!(infer("corpus.json.").unwrap_err().message(), "Unsupported format: ");
}

#[test]
fn saving_rewrites_the_extensions() {
    assert_eq!(target_path("corpus", Format::Json, None), "corpus.json");
    assert_eq!(target_path("corpus.json", Format::Json, None), "corpus.json");
    assert_eq!(target_path("corpus.json", Format::Cbor, Some(Compression::Flate2)), "corpus.cbor.gz");
    assert_eq!(target_path("corpus.cbor.gz", Format::Json, None), "corpus.json");
    assert_eq!(target_path("corpus.cbor.gz", Format::Cbor, Some(Compression::Lzma2)), "corpus.cbor.xz");
    assert_eq!(target_path("hello.corp", Format::Cbor, Some(Compression::Flate2)), "hello.cbor.gz");
    assert_eq!(target_path("hello.corp.gz", Format::Json, Some(Compression::Zstd)), "hello.json.zst");
    assert_eq!(target_path("a.b/corpus", Format::Xml, None), "a.b/corpus.xml");
    assert_eq!(target_path("a/.hidden", Format::Rmp, None), "a/.hidden.msgpack");
    assert_eq!(target_path("corpus.gz", Format::Bincode, None), "corpus.bincode");
}

#[test]
fn the_name_written_tells_of_what_was_chosen() {
    for format in [Format::Cbor, Format::Json, Format::Xml, Format::Rmp, Format::Bincode] {
        for compression in
            [None, Some(Compression::Flate2), Some(Compression::Zstd), Some(Compression::Lzma2)]
        {
            let name = target_path("dir/corpus.old", format, compression);
            assert_eq!(infer(&name).unwrap(), (format, compression));
        }
    }
}
