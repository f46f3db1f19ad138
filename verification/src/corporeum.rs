//! A corpus bound to the place it is kept at.

use crate::codec::{decode, encode, has_backend, image, restored};
use crate::compression::Compression;
use crate::corpus::{Corpus, CorpusView};
use crate::error::{CorporeumError, ErrorView};
use crate::format::{Format, infer, inferred, target, target_path};
use vstd::prelude::*;

verus! {

/// Holds a [`Corpus`] together with the path of the file it belongs to.
#[derive(Debug)]
pub struct Corporeum {
    original_file_path: String,
    corpus: Corpus,
}

/// What a bound corpus holds, as mathematical values.
#[verifier::ext_equal]
pub struct CorporeumView {
    pub original_file_path: Seq<char>,
    pub corpus: CorpusView,
}

impl View for Corporeum {
    type V = CorporeumView;

    closed spec fn view(&self) -> CorporeumView {
        CorporeumView { original_file_path: self.original_file_path@, corpus: self.corpus@ }
    }
}

/// A file as it is to be written: its name and what it holds.
#[derive(Debug)]
pub struct FileImage {
    pub path: String,
    pub bytes: Vec<u8>,
}

/// The codec and the compression that a corpus is saved with at `destination`: the pair
/// chosen, or else the pair that the name of the file tells of.
pub open spec fn chosen(destination: Seq<char>, choice: Option<(Format, Option<Compression>)>) -> Result<
    (Format, Option<Compression>),
    ErrorView,
> {
    match choice {
        Some(pair) => Ok(pair),
        None => inferred(destination),
    }
}

/// What saving a corpus to `destination` comes to: the name of the file and the bytes that
/// it is to hold, or the error that tells why nothing is saved. The codec and the
/// compression are those of `choice`, or else those that the name of the file tells of.
pub open spec fn file_saved(
    corpus: CorpusView,
    destination: Seq<char>,
    pretty: bool,
    choice: Option<(Format, Option<Compression>)>,
) -> Result<(Seq<char>, Seq<u8>), ErrorView> {
    match chosen(destination, choice) {
        Err(e) => Err(e),
        Ok(pair) => match image(corpus, pair.0, pair.1, pretty) {
            Err(e) => Err(e),
            Ok(bytes) => Ok((target(destination, pair.0, pair.1), bytes)),
        },
    }
}

impl Corporeum {
    /// Binds a new, empty corpus to `path`. Nothing is read or written.
    pub fn new(path: &str) -> (corp: Self)
        ensures
            corp@ == (CorporeumView { original_file_path: path@, corpus: CorpusView::empty() }),
    {
        Self { original_file_path: path.to_owned(), corpus: Corpus::new() }
    }

    /// The path of the file this corpus belongs to.
    pub fn original_file_path(&self) -> (path: &str)
        ensures
            path@ == self@.original_file_path,
    {
        self.original_file_path.as_str()
    }

    /// Binds the corpus that the file at `path` holds to that path. `bytes` is what the
    /// file holds; its name tells in which codec and under which compression.
    ///
    /// # Errors
    /// `UnsupportedFormat` if the name tells of no codec, or of one without a backend;
    /// otherwise what [`decode`] reports.
    pub fn from_file_image(path: &str, bytes: &[u8]) -> (r: Result<Self, CorporeumError>)
        ensures
            match r {
                Ok(corp) => {
                    &&& inferred(path@) matches Ok(pair)
                    &&& restored(bytes@, pair.0, pair.1) matches Ok(c)
                    &&& corp@ == (CorporeumView { original_file_path: path@, corpus: c })
                    &&& c.wf()
                },
                Err(e) => match inferred(path@) {
                    Ok(pair) => restored(bytes@, pair.0, pair.1) matches Err(f) && f == e@,
                    Err(f) => f == e@,
                },
            },
    {
        let pair = infer(path)?;
        let corpus = decode(bytes, pair.0, pair.1)?;
        Ok(Self { original_file_path: path.to_owned(), corpus })
    }

    /// The file that saving the corpus to its original location writes: the codec and the
    /// compression are those that the name of the file tells of. JSON is indented if `pretty`.
    ///
    /// The outcome depends on the path, on what the corpus holds and on `pretty` alone, as
    /// [`file_saved`] tells: as long as neither is changed, saving again succeeds if it
    /// succeeded before, and writes the same file.
    ///
    /// To save the corpus under a different file name, you may want to
    /// use [`file_image_as()`](Self::file_image_as) instead.
    ///
    /// # Errors
    /// `UnsupportedFormat` if the name tells of no codec; otherwise what [`encode`] reports.
    pub fn file_image(&self, pretty: bool) -> (r: Result<FileImage, CorporeumError>)
        ensures
            r is Ok <==> file_saved(self@.corpus, self@.original_file_path, pretty, None) is Ok,
            match r {
                Ok(file) => {
                    &&& file_saved(self@.corpus, self@.original_file_path, pretty, None) matches Ok(
                        made,
                    ) && made == (file.path@, file.bytes@)
                    &&& inferred(self@.original_file_path) matches Ok(pair)
                    &&& has_backend(pair.0)
                    &&& pair.1 is None || pair.1 == Some(Compression::Flate2)
                    &&& file.path@ == target(self@.original_file_path, pair.0, pair.1)
                    &&& image(self@.corpus, pair.0, pair.1, pretty) matches Ok(bytes) && bytes
                        == file.bytes@
                    &&& self@.corpus.wf() ==> (restored(file.bytes@, pair.0, pair.1) matches Ok(c)
                        && c == self@.corpus)
                },
                Err(e) => file_saved(self@.corpus, self@.original_file_path, pretty, None)
                    matches Err(why) && why == e@,
            },
    {
        self.file_image_as(self.original_file_path.as_str(), pretty, None)
    }

    /// The file that saving the corpus to `destination` writes, in the codec and under the
    /// compression of `choice`, or else in those that the name of the file tells of. The
    /// extensions of the name are rewritten to tell of both. JSON is indented if `pretty`.
    ///
    /// The outcome depends on the destination, on what the corpus holds and on the choices
    /// alone, as [`file_saved`] tells.
    ///
    /// To save the corpus to its original file, you may want to
    /// use [`file_image()`](Self::file_image) instead.
    ///
    /// # Errors
    /// `UnsupportedFormat` if nothing is chosen and the name tells of no codec; otherwise
    /// what [`encode`] reports.
    pub fn file_image_as(
        &self,
        destination: &str,
        pretty: bool,
        choice: Option<(Format, Option<Compression>)>,
    ) -> (r: Result<FileImage, CorporeumError>)
        ensures
            r is Ok <==> file_saved(self@.corpus, destination@, pretty, choice) is Ok,
            match r {
                Ok(file) => {
                    &&& file_saved(self@.corpus, destination@, pretty, choice) matches Ok(made)
                        && made == (file.path@, file.bytes@)
                    &&& chosen(destination@, choice) matches Ok(pair)
                    &&& has_backend(pair.0)
                    &&& pair.1 is None || pair.1 == Some(Compression::Flate2)
                    &&& file.path@ == target(destination@, pair.0, pair.1)
                    &&& image(self@.corpus, pair.0, pair.1, pretty) matches Ok(bytes) && bytes
                        == file.bytes@
                    &&& self@.corpus.wf() ==> (restored(file.bytes@, pair.0, pair.1) matches Ok(c)
                        && c == self@.corpus)
                },
                Err(e) => file_saved(self@.corpus, destination@, pretty, choice) matches Err(why)
                    && why == e@,
            },
    {
        let pair = match choice {
            Some(pair) => pair,
            None => infer(destination)?,
        };
        let bytes = encode(&self.corpus, pair.0, pair.1, pretty)?;
        Ok(FileImage { path: target_path(destination, pair.0, pair.1), bytes })
    }

    /// Return a reference to the internal `Corpus`.
    pub fn corpus(&self) -> (corpus: &Corpus)
        ensures
            corpus@ == self@.corpus,
    {
        &self.corpus
    }

    /// Return a mutable reference to the internal `Corpus`.
    pub fn corpus_mut(&mut self) -> (corpus: &mut Corpus)
        ensures
            corpus@ == old(self)@.corpus,
            final(self)@ == (CorporeumView { corpus: final(corpus)@, ..old(self)@ }),
    {
        &mut self.corpus
    }
}

} // verus!
