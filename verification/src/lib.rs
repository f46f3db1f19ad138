//! A library for working with text corpora.
//!
//! A [`Corpus`] owns [`Document`]s, a document owns [`Sentence`]s of its
//! source text, and a sentence owns [`Token`]s and the translations that
//! render it. Children are made in two steps: the parent creates a child
//! with the next free id, the caller fills it, and the parent then adds it,
//! unless it holds nothing.
//!
//! A corpus is written out by [`codec::encode`] and read back by
//! [`codec::decode`], as JSON or CBOR, compressed or not. Reading and
//! writing files is left to the caller: the library deals in bytes.

pub use author::Author;
pub use compression::Compression;
pub use corporeum::Corporeum;
pub use corpus::Corpus;
pub use document::Document;
pub use error::CorporeumError;
pub use format::Format;
pub use metadata::Metadata;
pub use sentence::{Sentence, Source, Target};
pub use token::Token;
pub use translation::{SentenceType, Translation};

pub mod author;
pub mod cbor;
pub mod codec;
pub mod compression;
pub mod corporeum;
pub mod corpus;
pub mod document;
pub mod error;
pub mod format;
pub mod ident;
pub mod json;
pub mod metadata;
pub mod model;
pub mod records;
pub mod schema;
pub mod sentence;
pub mod text;
pub mod token;
pub mod translation;
pub mod tree;
