//! Writing a corpus out as bytes and reading it back: the corpus is laid out
//! as a tree, the tree is written by a codec, and compression, if any, is laid
//! around what the codec wrote. Reading undoes the three steps in turn.

use crate::cbor::{cbor_decoded, cbor_saved, read_cbor, write_cbor};
use crate::compression::{
    Compression, lemma_packed_unpacks, pack, packed, unpack, unpacked, unsupported,
    unsupported_error,
};
use crate::corpus::{Corpus, CorpusView};
use crate::error::{CorporeumError, ErrorView};
use crate::format::Format;
use crate::json::{json_decoded, json_saved, read_json, write_json};
use crate::schema::{corpus_datum, corpus_of, corpus_tree, lemma_corpus_round_trip, tree_corpus};
use crate::tree::{Datum, Tree};
use vstd::prelude::*;

verus! {

/// The codecs that the library can carry out: the others it knows by name only.
pub open spec fn has_backend(format: Format) -> bool {
    format == Format::Json || format == Format::Cbor
}

/// What writing a tree in `format` comes to, JSON indented if `pretty`: the bytes that
/// the codec makes, if it has a backend, makes any, and they are read back as the same
/// tree; or the error that tells why nothing is handed out.
pub open spec fn written(tree: Tree, format: Format, pretty: bool) -> Result<Seq<u8>, ErrorView> {
    match format {
        Format::Json => json_saved(tree, pretty),
        Format::Cbor => cbor_saved(tree),
        other => Err(unsupported(other.spec_extension())),
    }
}

/// The tree that a codec reads out of bytes, or the error that tells why it reads none.
pub open spec fn read_back(bytes: Seq<u8>, format: Format) -> Result<Tree, ErrorView> {
    match format {
        Format::Json => json_decoded(bytes),
        Format::Cbor => cbor_decoded(bytes),
        other => Err(unsupported(other.spec_extension())),
    }
}

/// What saving a corpus comes to: the bytes that it is saved as, or the error that tells
/// why it is not saved. The corpus is laid out as a tree, the tree is written in `format`,
/// and what was written is packed with `compression`, if any.
pub open spec fn image(
    corpus: CorpusView,
    format: Format,
    compression: Option<Compression>,
    pretty: bool,
) -> Result<Seq<u8>, ErrorView> {
    match written(corpus_tree(corpus), format, pretty) {
        Err(e) => Err(e),
        Ok(raw) => packed(raw, compression),
    }
}

/// Saving the corpus succeeds: the codec has a backend and makes bytes that are read back
/// as the tree of the corpus, and the compression, if any, has a backend and makes of
/// them a stream that decompresses to them again.
pub open spec fn saves(
    corpus: CorpusView,
    format: Format,
    compression: Option<Compression>,
    pretty: bool,
) -> bool {
    image(corpus, format, compression, pretty) is Ok
}

/// The corpus that is loaded from bytes, or the error that tells why none is.
pub open spec fn restored(bytes: Seq<u8>, format: Format, compression: Option<Compression>) -> Result<
    CorpusView,
    ErrorView,
> {
    match unpacked(bytes, compression) {
        Err(e) => Err(e),
        Ok(raw) => match read_back(raw, format) {
            Err(e) => Err(e),
            Ok(tree) => tree_corpus(tree),
        },
    }
}

/// What was written is read back as the tree that it was written for.
pub proof fn lemma_written_reads_back(tree: Tree, format: Format, pretty: bool)
    requires
        written(tree, format, pretty) is Ok,
    ensures
        has_backend(format),
        read_back(written(tree, format, pretty)->Ok_0, format) == Ok::<Tree, ErrorView>(tree),
{
}

/// A corpus that was saved is loaded again as it was: whatever the codec and the
/// compression, the bytes that a corpus is saved as are restored to a corpus that holds
/// the same, provided that its metadata names no author twice.
pub proof fn lemma_saved_is_restored(
    corpus: CorpusView,
    format: Format,
    compression: Option<Compression>,
    pretty: bool,
)
    requires
        corpus.wf(),
        saves(corpus, format, compression, pretty),
    ensures
        has_backend(format),
        compression is None || compression == Some(Compression::Flate2),
        restored(image(corpus, format, compression, pretty)->Ok_0, format, compression) == Ok::<
            CorpusView,
            ErrorView,
        >(corpus),
{
    let tree = corpus_tree(corpus);
    lemma_corpus_round_trip(corpus);
    lemma_written_reads_back(tree, format, pretty);
    lemma_packed_unpacks(written(tree, format, pretty)->Ok_0, compression);
}

/// Writes a tree in `format`. What is handed out is read back as the same tree. The
/// outcome depends on the tree and the choices alone, as [`written`] tells; for JSON, as
/// long as no record in the tree holds a key twice.
///
/// # Errors
/// `UnsupportedFormat` for a codec without a backend; `BadValue` or `Io` if the codec fails
/// or writes what is not read back as the same.
pub fn write_tree(datum: &Datum, format: Format, pretty: bool) -> (r: Result<
    Vec<u8>,
    CorporeumError,
>)
    ensures
        match r {
            Ok(bytes) => {
                &&& has_backend(format)
                &&& read_back(bytes@, format) matches Ok(tree) && tree == datum@
            },
            Err(e) => if has_backend(format) {
                e@ is BadValue || e@ is Io
            } else {
                e@ == unsupported(format.spec_extension())
            },
        },
        (format == Format::Json ==> datum@.keyed()) ==> (r is Ok <==> written(
            datum@,
            format,
            pretty,
        ) is Ok),
        (format == Format::Json ==> datum@.keyed()) ==> match r {
            Ok(bytes) => written(datum@, format, pretty) matches Ok(made) && made == bytes@,
            Err(e) => written(datum@, format, pretty) matches Err(why) && why == e@,
        },
{
    match format {
        Format::Json => write_json(datum, pretty),
        Format::Cbor => write_cbor(datum),
        other => Err(unsupported_error(other.extension())),
    }
}

/// Reads a tree out of bytes in `format`.
///
/// # Errors
/// `UnsupportedFormat` for a codec without a backend; otherwise what the codec reports.
pub fn read_tree(bytes: &[u8], format: Format) -> (r: Result<Datum, CorporeumError>)
    ensures
        match r {
            Ok(datum) => read_back(bytes@, format) matches Ok(tree) && tree == datum@,
            Err(e) => read_back(bytes@, format) matches Err(f) && f == e@,
        },
{
    match format {
        Format::Json => read_json(bytes),
        Format::Cbor => read_cbor(bytes),
        other => Err(unsupported_error(other.extension())),
    }
}

/// Writes a corpus out as bytes: laid out as a tree, written in `format` (JSON indented
/// if `pretty`), and compressed with `compression` if any.
///
/// The outcome depends on the corpus and the choices alone: the call succeeds exactly
/// where [`saves`] holds, and then hands out the bytes of [`image`]. [`decode`] with the
/// same choices reads back out of them a corpus that holds the same, provided that the
/// metadata names no author twice. For this, what the codec and the compressor hand
/// back is read back and held against what was handed to them before it is passed on.
///
/// # Errors
/// `UnsupportedFormat` for a codec or a compression without a backend; `BadValue` or `Io`
/// if the codec fails or writes what is not read back as the same; `CompressionError` if
/// the compressor fails or makes what does not decompress to the same.
pub fn encode(corpus: &Corpus, format: Format, compression: Option<Compression>, pretty: bool) -> (r:
    Result<Vec<u8>, CorporeumError>)
    ensures
        r is Ok <==> saves(corpus@, format, compression, pretty),
        match r {
            Ok(bytes) => {
                &&& image(corpus@, format, compression, pretty) matches Ok(made) && made == bytes@
                &&& has_backend(format)
                &&& compression is None || compression == Some(Compression::Flate2)
                &&& corpus@.wf() ==> (restored(bytes@, format, compression) matches Ok(c) && c
                    == corpus@)
            },
            Err(e) => image(corpus@, format, compression, pretty) matches Err(why) && why == e@,
        },
{
    let datum = corpus_datum(corpus);
    proof {
        lemma_corpus_round_trip(corpus@);
        if corpus@.wf() && saves(corpus@, format, compression, pretty) {
            lemma_saved_is_restored(corpus@, format, compression, pretty);
        }
    }
    let raw = write_tree(&datum, format, pretty)?;
    pack(raw, compression)
}

/// Reads a corpus out of bytes: takes off `compression` if any, reads a tree in `format`,
/// and reads the corpus out of the tree. What was compressed is looked at by the codec
/// alone.
///
/// # Errors
/// `UnsupportedFormat` for a codec or a compression without a backend;
/// `DecompressionError` if the bytes are no stream of the compression; the codec's
/// errors if what is in them cannot be read; a semantic error if what is read is no corpus.
pub fn decode(bytes: &[u8], format: Format, compression: Option<Compression>) -> (r: Result<
    Corpus,
    CorporeumError,
>)
    ensures
        match r {
            Ok(corpus) => restored(bytes@, format, compression) matches Ok(c) && c == corpus@
                && corpus@.wf(),
            Err(e) => restored(bytes@, format, compression) matches Err(f) && f == e@,
        },
{
    let raw = unpack(bytes, compression)?;
    let datum = read_tree(raw.as_slice(), format)?;
    corpus_of(&datum)
}

} // verus!
