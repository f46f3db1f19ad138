//! The errors that the library reports.

use crate::text::{decimal, decimal_string, join3};
use vstd::prelude::*;

verus! {

/// Represents all possible errors.
#[derive(Debug)]
pub enum CorporeumError {
    /// Generic I/O operation failure; the input ended early, for one.
    Io(String),
    /// Zlib decompression failed.
    DecompressionError(String),
    /// Zlib compression failed.
    CompressionError(String),
    /// Specified object is empty.
    EmptyObject(String),
    /// An element was not found.
    ElementNotFound(String),
    /// An element of the same identity is already there.
    DuplicateElement(String),
    /// The input is nested too deeply to be read.
    FailedToParseRecursionLimitExceeded,
    /// A value was read but does not fit the place it stands in.
    /// Contains the offset into the input, where it is known.
    FailedToParseSemantic(Option<usize>, String),
    /// An error occurred while parsing bytes.
    /// Contains the offset into the input where the syntax error occurred.
    SyntaxError(usize),
    /// Failed to serialize a value.
    BadValue(String),
    /// The file extension, codec or compression is not one the library handles.
    UnsupportedFormat(String),
}

/// An error, as mathematical values.
pub enum ErrorView {
    Io(Seq<char>),
    DecompressionError(Seq<char>),
    CompressionError(Seq<char>),
    EmptyObject(Seq<char>),
    ElementNotFound(Seq<char>),
    DuplicateElement(Seq<char>),
    FailedToParseRecursionLimitExceeded,
    FailedToParseSemantic(Option<nat>, Seq<char>),
    SyntaxError(nat),
    BadValue(Seq<char>),
    UnsupportedFormat(Seq<char>),
}

impl View for CorporeumError {
    type V = ErrorView;

    open spec fn view(&self) -> ErrorView {
        match *self {
            CorporeumError::Io(m) => ErrorView::Io(m@),
            CorporeumError::DecompressionError(m) => ErrorView::DecompressionError(m@),
            CorporeumError::CompressionError(m) => ErrorView::CompressionError(m@),
            CorporeumError::EmptyObject(m) => ErrorView::EmptyObject(m@),
            CorporeumError::ElementNotFound(m) => ErrorView::ElementNotFound(m@),
            CorporeumError::DuplicateElement(m) => ErrorView::DuplicateElement(m@),
            CorporeumError::FailedToParseRecursionLimitExceeded =>
                ErrorView::FailedToParseRecursionLimitExceeded,
            CorporeumError::FailedToParseSemantic(at, m) => ErrorView::FailedToParseSemantic(
                match at {
                    Some(at) => Some(at as nat),
                    None => None,
                },
                m@,
            ),
            CorporeumError::SyntaxError(at) => ErrorView::SyntaxError(at as nat),
            CorporeumError::BadValue(m) => ErrorView::BadValue(m@),
            CorporeumError::UnsupportedFormat(m) => ErrorView::UnsupportedFormat(m@),
        }
    }
}

/// How an offset that may be unknown is written out.
pub open spec fn offset_text(at: Option<nat>) -> Seq<char> {
    match at {
        Some(at) => "Some("@ + decimal(at) + ")"@,
        None => "None"@,
    }
}

/// The text that tells a caller no child bears `id`; `what` names the kind of child.
pub open spec fn not_found_text(what: Seq<char>, id: nat) -> Seq<char> {
    what + " with ID "@ + decimal(id) + " does not exist"@
}

impl ErrorView {
    /// The text that shows the error to a user.
    pub open spec fn text(self) -> Seq<char> {
        match self {
            ErrorView::Io(m) => "I/O: "@ + m,
            ErrorView::DecompressionError(m) => "Zlib: Decompression failed: "@ + m,
            ErrorView::CompressionError(m) => "Zlib: Compression failed: "@ + m,
            ErrorView::EmptyObject(m) => "Empty Object: "@ + m,
            ErrorView::ElementNotFound(m) => "Element not found: "@ + m,
            ErrorView::DuplicateElement(m) => "Duplicate element: "@ + m,
            ErrorView::FailedToParseRecursionLimitExceeded => "Recursion limit exceeded"@,
            ErrorView::FailedToParseSemantic(at, m) => "Semantic: "@ + offset_text(at) + ", "@ + m,
            ErrorView::SyntaxError(at) => "Syntax Error at offset "@ + decimal(at),
            ErrorView::BadValue(m) => "Bad Value: "@ + m,
            ErrorView::UnsupportedFormat(m) => "Unsupported format: "@ + m,
        }
    }
}

fn prefixed(prefix: &str, m: &String) -> (s: String)
    ensures
        s@ == prefix@ + m@,
{
    let s = join3(prefix, m.as_str(), "");
    proof {
        reveal_strlit("");
        assert(prefix@ + m@ + ""@ =~= prefix@ + m@);
    }
    s
}

impl CorporeumError {
    /// The text that shows this error to a user.
    pub fn message(&self) -> (s: String)
        ensures
            s@ == self@.text(),
    {
        match self {
            CorporeumError::Io(m) => prefixed("I/O: ", m),
            CorporeumError::DecompressionError(m) => prefixed("Zlib: Decompression failed: ", m),
            CorporeumError::CompressionError(m) => prefixed("Zlib: Compression failed: ", m),
            CorporeumError::EmptyObject(m) => prefixed("Empty Object: ", m),
            CorporeumError::ElementNotFound(m) => prefixed("Element not found: ", m),
            CorporeumError::DuplicateElement(m) => prefixed("Duplicate element: ", m),
            CorporeumError::FailedToParseRecursionLimitExceeded => {
                "Recursion limit exceeded".to_owned()
            },
            CorporeumError::FailedToParseSemantic(at, m) => {
                let place = match at {
                    Some(at) => join3("Some(", decimal_string(*at as u64).as_str(), ")"),
                    None => "None".to_owned(),
                };
                let head = join3("Semantic: ", place.as_str(), ", ");
                prefixed(head.as_str(), m)
            },
            CorporeumError::SyntaxError(at) => {
                let at = decimal_string(*at as u64);
                prefixed("Syntax Error at offset ", &at)
            },
            CorporeumError::BadValue(m) => prefixed("Bad Value: ", m),
            CorporeumError::UnsupportedFormat(m) => prefixed("Unsupported format: ", m),
        }
    }

    /// The error for an attempt to attach a child that holds nothing.
    pub fn empty_object(text: &str) -> (e: CorporeumError)
        ensures
            e@ == ErrorView::EmptyObject(text@),
    {
        CorporeumError::EmptyObject(text.to_owned())
    }

    /// The error for an id that no child bears; `what` names the kind of child.
    pub fn not_found(what: &str, id: u64) -> (e: CorporeumError)
        ensures
            e@ == ErrorView::ElementNotFound(not_found_text(what@, id as nat)),
    {
        let head = join3(what, " with ID ", decimal_string(id).as_str());
        let text = join3(head.as_str(), " does not exist", "");
        proof {
            reveal_strlit("");
            assert(text@ =~= not_found_text(what@, id as nat));
        }
        CorporeumError::ElementNotFound(text)
    }
}

} // verus!
