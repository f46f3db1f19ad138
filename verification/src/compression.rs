//! The compression that can be laid around an encoded corpus.

use crate::error::{CorporeumError, ErrorView};
use crate::text::same_bytes;
use std::io::{Read, Write};
use vstd::prelude::*;

verus! {

/// A compression algorithm
#[derive(Debug, Clone, Copy, PartialEq, Eq, Structural)]
pub enum Compression {
    /// DEFLATE-based stream compression/decompression
    Flate2,
    /// Zstandard
    Zstd,
    /// Lempel–Ziv–Markov chain algorithm
    Lzma2,
}

/// What `flate2` makes of `data` at its best level: the zlib stream, or in words why it
/// makes none.
pub uninterp spec fn deflated(data: Seq<u8>) -> Result<Seq<u8>, Seq<char>>;

/// What `flate2` reads out of a zlib stream: the data, or in words why it reads none.
pub uninterp spec fn inflated(stream: Seq<u8>) -> Result<Seq<u8>, Seq<char>>;

/// `flate2::write::ZlibEncoder` at `flate2::Compression::best()` over a fresh vector:
/// `write_all` of the data, then `finish`. A failure is handed out in words.
///
/// Trusted: what comes back, the stream or the failure, is a function of the data alone.
#[verifier::external_body]
fn deflate(data: &[u8]) -> (stream: Result<Vec<u8>, String>)
    ensures
        match stream {
            Ok(z) => deflated(data@) matches Ok(made) && made == z@,
            Err(text) => deflated(data@) matches Err(why) && why == text@,
        },
{
    let mut encoder = flate2::write::ZlibEncoder::new(Vec::new(), flate2::Compression::best());
    match encoder.write_all(data) {
        Ok(()) => encoder.finish().map_err(|e| e.to_string()),
        Err(e) => Err(e.to_string()),
    }
}

/// `flate2::read::ZlibDecoder` over the stream, read to its end. A failure is handed out
/// in words.
///
/// Trusted: what comes back is a function of the stream alone.
#[verifier::external_body]
fn inflate(stream: &[u8]) -> (data: Result<Vec<u8>, String>)
    ensures
        match data {
            Ok(d) => inflated(stream@) matches Ok(read) && read == d@,
            Err(text) => inflated(stream@) matches Err(why) && why == text@,
        },
{
    let mut data = Vec::new();
    match flate2::read::ZlibDecoder::new(stream).read_to_end(&mut data) {
        Ok(_) => Ok(data),
        Err(e) => Err(e.to_string()),
    }
}

/// The error for a codec or a compression that the library knows by name and cannot carry out.
pub open spec fn unsupported(name: Seq<char>) -> ErrorView {
    ErrorView::UnsupportedFormat(name)
}

/// The error for a codec or a compression that the library knows by name and cannot carry out.
pub fn unsupported_error(name: &str) -> (e: CorporeumError)
    ensures
        e@ == unsupported(name@),
{
    CorporeumError::UnsupportedFormat(name.to_owned())
}

impl Compression {
    /// The name of the algorithm.
    pub open spec fn spec_name(self) -> Seq<char> {
        match self {
            Compression::Flate2 => "flate2"@,
            Compression::Zstd => "zstd"@,
            Compression::Lzma2 => "lzma2"@,
        }
    }

    /// The name of the algorithm.
    pub fn name(self) -> (name: &'static str)
        ensures
            name@ == self.spec_name(),
    {
        match self {
            Compression::Flate2 => "flate2",
            Compression::Zstd => "zstd",
            Compression::Lzma2 => "lzma2",
        }
    }
}

/// What unpacking makes of `bytes` that were packed with `compression`, or with none.
pub open spec fn unpacked(bytes: Seq<u8>, compression: Option<Compression>) -> Result<
    Seq<u8>,
    ErrorView,
> {
    match compression {
        None => Ok(bytes),
        Some(Compression::Flate2) => match inflated(bytes) {
            Ok(data) => Ok(data),
            Err(text) => Err(ErrorView::DecompressionError(text)),
        },
        Some(other) => Err(unsupported(other.spec_name())),
    }
}

/// What is made of the zlib stream, or the failure, that the compressor came back with.
pub fn deflate_outcome(stream: Result<Vec<u8>, String>) -> (r: Result<Vec<u8>, CorporeumError>)
    ensures
        match stream {
            Ok(z) => r matches Ok(bytes) && bytes == z,
            Err(text) => r matches Err(e) && e@ == ErrorView::CompressionError(text@),
        },
{
    match stream {
        Ok(z) => Ok(z),
        Err(text) => Err(CorporeumError::CompressionError(text)),
    }
}

/// What is made of the data, or the failure, that the decompressor came back with.
pub fn inflate_outcome(data: Result<Vec<u8>, String>) -> (r: Result<Vec<u8>, CorporeumError>)
    ensures
        match data {
            Ok(d) => r matches Ok(bytes) && bytes == d,
            Err(text) => r matches Err(e) && e@ == ErrorView::DecompressionError(text@),
        },
{
    match data {
        Ok(d) => Ok(d),
        Err(text) => Err(CorporeumError::DecompressionError(text)),
    }
}

/// The error for a stream that the compressor made and that does not unpack to what
/// was packed.
pub open spec fn unpackable() -> ErrorView {
    ErrorView::CompressionError("what was compressed does not decompress to the same"@)
}

/// The error for a stream that the compressor made and that does not unpack to what
/// was packed.
fn unpackable_error() -> (e: CorporeumError)
    ensures
        e@ == unpackable(),
{
    CorporeumError::CompressionError("what was compressed does not decompress to the same".to_owned())
}

/// What packing with `compression`, or with none, makes of `data`: the data itself
/// without compression; the stream that the compressor makes, if it makes one and the
/// stream decompresses to the data again; or the error that tells why nothing is made.
pub open spec fn packed(data: Seq<u8>, compression: Option<Compression>) -> Result<
    Seq<u8>,
    ErrorView,
> {
    match compression {
        None => Ok(data),
        Some(Compression::Flate2) => match deflated(data) {
            Err(why) => Err(ErrorView::CompressionError(why)),
            Ok(stream) => if inflated(stream) == Ok::<Seq<u8>, Seq<char>>(data) {
                Ok(stream)
            } else {
                Err(unpackable())
            },
        },
        Some(other) => Err(unsupported(other.spec_name())),
    }
}

/// What was packed unpacks to what it was made of.
pub proof fn lemma_packed_unpacks(data: Seq<u8>, compression: Option<Compression>)
    requires
        packed(data, compression) is Ok,
    ensures
        compression is None || compression == Some(Compression::Flate2),
        unpacked(packed(data, compression)->Ok_0, compression) == Ok::<Seq<u8>, ErrorView>(data),
{
}

/// Lays `compression`, if any, around `data`.
///
/// What was compressed is unpacked before it is handed out, so that what is handed out
/// unpacks to `data` again. Zstandard and LZMA are known by name only.
///
/// # Errors
/// `UnsupportedFormat` for an algorithm without a backend; `CompressionError` if the
/// compressor fails, or makes a stream that does not unpack to `data`.
pub fn pack(data: Vec<u8>, compression: Option<Compression>) -> (r: Result<
    Vec<u8>,
    CorporeumError,
>)
    ensures
        r is Ok <==> packed(data@, compression) is Ok,
        match r {
            Ok(bytes) => {
                &&& packed(data@, compression) matches Ok(made) && made == bytes@
                &&& compression is None || compression == Some(Compression::Flate2)
                &&& unpacked(bytes@, compression) matches Ok(back) && back == data@
            },
            Err(e) => packed(data@, compression) matches Err(why) && why == e@,
        },
{
    match compression {
        None => Ok(data),
        Some(Compression::Flate2) => {
            let stream = deflate_outcome(deflate(data.as_slice()))?;
            match inflate(stream.as_slice()) {
                Ok(back) => if same_bytes(back.as_slice(), data.as_slice()) {
                    Ok(stream)
                } else {
                    Err(unpackable_error())
                },
                Err(_) => Err(unpackable_error()),
            }
        },
        Some(other) => Err(unsupported_error(other.name())),
    }
}

/// Takes `compression`, if any, off `bytes`.
///
/// # Errors
/// `UnsupportedFormat` for an algorithm without a backend; `DecompressionError` if the
/// bytes are no stream of the algorithm.
pub fn unpack(bytes: &[u8], compression: Option<Compression>) -> (r: Result<
    Vec<u8>,
    CorporeumError,
>)
    ensures
        match r {
            Ok(data) => unpacked(bytes@, compression) matches Ok(d) && d == data@,
            Err(e) => unpacked(bytes@, compression) matches Err(why) && why == e@,
        },
{
    match compression {
        None => Ok(vstd::slice::slice_to_vec(bytes)),
        Some(Compression::Flate2) => inflate_outcome(inflate(bytes)),
        Some(other) => Err(unsupported_error(other.name())),
    }
}

} // verus!
