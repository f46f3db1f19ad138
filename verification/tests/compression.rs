use corporeum::compression::{pack, unpack};
use corporeum::{Compression, CorporeumError};

#[test]
fn packing_without_compression_changes_nothing() {
    let data = b"I like cats.".to_vec();
    let packed = pack(data.clone(), None).unwrap();
    assert_eq!(packed, data);
    assert_eq!(unpack(&packed, None).unwrap(), data);
}

#[test]
fn deflated_data_comes_back() {
    let data = b"Cats like me. Cats like me. Cats like me.".to_vec();
    let packed = pack(data.clone(), Some(Compression::Flate2)).unwrap();
    assert_ne!(packed, data);
    // a zlib stream at the best level starts with 0x78 0xda
    assert_eq!(&packed[..2], &[0x78, 0xda]);
    assert_eq!(unpack(&packed, Some(Compression::Flate2)).unwrap(), data);
}

#[test]
fn empty_data_is_deflated_too() {
    let packed = pack(Vec::new(), Some(Compression::Flate2)).unwrap();
    assert!(!packed.is_empty());
    assert!(unpack(&packed, Some(Compression::Flate2)).unwrap().is_empty());
}

#[test]
fn deflating_twice_gives_the_same_bytes() {
    let data = b"Cats like me.".to_vec();
    let first = pack(data.clone(), Some(Compression::Flate2)).unwrap();
    let second = pack(data, Some(Compression::Flate2)).unwrap();
    assert_eq!(first, second);
}

#[test]
fn garbage_does_not_inflate() {
    let err = unpack(b"not a zlib stream", Some(Compression::Flate2)).unwrap_err();
    assert!(matches!(err, CorporeumError::DecompressionError(_)));
    assert!(err.message().starts_with("Zlib: Decompression failed: "));
}

#[test]
fn truncated_stream_does_not_inflate() {
    let packed = pack(b"Cats like me. Cats like me.".to_vec(), Some(Compression::Flate2)).unwrap();
    let err = unpack(&packed[..packed.len() / 2], Some(Compression::Flate2)).unwrap_err();
    assert!(matches!(err, CorporeumError::DecompressionError(_)));
}

#[test]
fn algorithms_without_backend_are_refused() {
    for (algorithm, name) in [(Compression::Zstd, "zstd"), (Compression::Lzma2, "lzma2")] {
        assert_eq!(algorithm.name(), name);
        let err = pack(b"x".to_vec(), Some(algorithm)).unwrap_err();
        assert!(matches!(err, CorporeumError::UnsupportedFormat(_)));
        assert_eq!(err.message(), format!("Unsupported format: {name}"));
        let err = unpack(b"x", Some(algorithm)).unwrap_err();
        assert!(matches!(err, CorporeumError::UnsupportedFormat(_)));
    }
}
