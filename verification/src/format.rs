//! The encodings a corpus can be written in, and how the name of a file
//! tells which encoding and which compression it holds.
//!
//! A file is named `stem.codec` or `stem.codec.compression`: `corpus.json`,
//! `corpus.cbor.gz`. The extension of a name is what follows the last dot of
//! its last component, unless that dot stands first in the component.

use crate::compression::{Compression, unsupported, unsupported_error};
use crate::error::{CorporeumError, ErrorView};
use crate::text::{join3, same_text};
use vstd::prelude::*;
use vstd::string::StrSliceExecFns;

verus! {

/// A corpus file format
#[derive(Debug, Clone, Copy, PartialEq, Eq, Structural)]
pub enum Format {
    /// Concise Binary Object Representation
    Cbor,
    /// JavaScript Object Notation
    Json,
    /// Extensible Markup Language
    Xml,
    /// Rust MessagePack
    Rmp,
    /// Bincode
    Bincode,
}

impl Format {
    /// The extension of a file in this format.
    pub open spec fn spec_extension(self) -> Seq<char> {
        match self {
            Format::Cbor => "cbor"@,
            Format::Json => "json"@,
            Format::Xml => "xml"@,
            Format::Rmp => "msgpack"@,
            Format::Bincode => "bincode"@,
        }
    }

    /// The extension of a file in this format.
    pub fn extension(self) -> (ext: &'static str)
        ensures
            ext@ == self.spec_extension(),
    {
        match self {
            Format::Cbor => "cbor",
            Format::Json => "json",
            Format::Xml => "xml",
            Format::Rmp => "msgpack",
            Format::Bincode => "bincode",
        }
    }

    /// The format that an extension stands for.
    pub open spec fn spec_from_extension(ext: Seq<char>) -> Option<Format> {
        if ext == "cbor"@ {
            Some(Format::Cbor)
        } else if ext == "json"@ {
            Some(Format::Json)
        } else if ext == "xml"@ {
            Some(Format::Xml)
        } else if ext == "msgpack"@ {
            Some(Format::Rmp)
        } else if ext == "bincode"@ {
            Some(Format::Bincode)
        } else {
            None
        }
    }

    /// The format that an extension stands for.
    pub fn from_extension(ext: &str) -> (format: Option<Format>)
        ensures
            format == Format::spec_from_extension(ext@),
    {
        if same_text(ext, "cbor") {
            Some(Format::Cbor)
        } else if same_text(ext, "json") {
            Some(Format::Json)
        } else if same_text(ext, "xml") {
            Some(Format::Xml)
        } else if same_text(ext, "msgpack") {
            Some(Format::Rmp)
        } else if same_text(ext, "bincode") {
            Some(Format::Bincode)
        } else {
            None
        }
    }
}

impl Compression {
    /// The extension that tells a file is compressed with this algorithm.
    pub open spec fn spec_extension(self) -> Seq<char> {
        match self {
            Compression::Flate2 => "gz"@,
            Compression::Zstd => "zst"@,
            Compression::Lzma2 => "xz"@,
        }
    }

    /// The extension that tells a file is compressed with this algorithm.
    pub fn extension(self) -> (ext: &'static str)
        ensures
            ext@ == self.spec_extension(),
    {
        match self {
            Compression::Flate2 => "gz",
            Compression::Zstd => "zst",
            Compression::Lzma2 => "xz",
        }
    }

    /// The algorithm that an extension stands for.
    pub open spec fn spec_from_extension(ext: Seq<char>) -> Option<Compression> {
        if ext == "gz"@ {
            Some(Compression::Flate2)
        } else if ext == "zst"@ {
            Some(Compression::Zstd)
        } else if ext == "xz"@ || ext == "lzma"@ {
            Some(Compression::Lzma2)
        } else {
            None
        }
    }

    /// The algorithm that an extension stands for.
    pub fn from_extension(ext: &str) -> (compression: Option<Compression>)
        ensures
            compression == Compression::spec_from_extension(ext@),
    {
        if same_text(ext, "gz") {
            Some(Compression::Flate2)
        } else if same_text(ext, "zst") {
            Some(Compression::Zstd)
        } else if same_text(ext, "xz") || same_text(ext, "lzma") {
            Some(Compression::Lzma2)
        } else {
            None
        }
    }
}

/// Where the dot that starts the extension stands among the first `end` characters of
/// `path`, if they end in a name with an extension.
pub open spec fn extension_dot(path: Seq<char>, end: int) -> Option<int>
    decreases end,
{
    if end <= 0 || end > path.len() {
        None
    } else if path[end - 1] == '/' {
        None
    } else if path[end - 1] == '.' {
        if end - 1 == 0 || path[end - 2] == '/' {
            None
        } else {
            Some(end - 1)
        }
    } else {
        extension_dot(path, end - 1)
    }
}

/// The extension of the name that `path` ends in, if it has one.
pub open spec fn extension_of(path: Seq<char>) -> Option<Seq<char>> {
    match extension_dot(path, path.len() as int) {
        Some(dot) => Some(path.subrange(dot + 1, path.len() as int)),
        None => None,
    }
}

/// `path` without the extension of the name that it ends in.
pub open spec fn stem_of(path: Seq<char>) -> Seq<char> {
    match extension_dot(path, path.len() as int) {
        Some(dot) => path.subrange(0, dot),
        None => path,
    }
}

/// The codec and the compression that the name of a file tells of.
pub open spec fn inferred(path: Seq<char>) -> Result<(Format, Option<Compression>), ErrorView> {
    match extension_of(path) {
        None => Err(unsupported(Seq::empty())),
        Some(ext) => match Compression::spec_from_extension(ext) {
            Some(compression) => match extension_of(stem_of(path)) {
                None => Err(unsupported(ext)),
                Some(inner) => match Format::spec_from_extension(inner) {
                    Some(format) => Ok((format, Some(compression))),
                    None => Err(unsupported(inner)),
                },
            },
            None => match Format::spec_from_extension(ext) {
                Some(format) => Ok((format, None)),
                None => Err(unsupported(ext)),
            },
        },
    }
}

/// What is left of `path` when the extension of a compression, if it has one, and then
/// one more extension, if it has one, are taken off.
pub open spec fn bare(path: Seq<char>) -> Seq<char> {
    match extension_of(path) {
        None => path,
        Some(ext) => if Compression::spec_from_extension(ext) is Some {
            stem_of(stem_of(path))
        } else {
            stem_of(path)
        },
    }
}

/// The extensions that a file in `format`, compressed with `compression` if any, is named with.
pub open spec fn suffix(format: Format, compression: Option<Compression>) -> Seq<char> {
    match compression {
        Some(c) => "."@ + format.spec_extension() + "."@ + c.spec_extension(),
        None => "."@ + format.spec_extension(),
    }
}

/// The name under which a corpus is saved at `path` in `format`, compressed with
/// `compression` if any: the extensions of `path` are rewritten to tell of both.
pub open spec fn target(path: Seq<char>, format: Format, compression: Option<Compression>) -> Seq<
    char,
> {
    bare(path) + suffix(format, compression)
}

/// Finds the dot that starts the extension of the name that `path` ends in.
fn find_extension_dot(path: &str) -> (dot: Option<usize>)
    ensures
        match dot {
            Some(d) => extension_dot(path@, path@.len() as int) == Some(d as int) && d < path@.len(),
            None => extension_dot(path@, path@.len() as int) is None,
        },
{
    let n = path.unicode_len();
    let mut end: usize = n;
    while end > 0
        invariant
            end <= n,
            n == path@.len(),
            extension_dot(path@, n as int) == extension_dot(path@, end as int),
        decreases end,
    {
        let c = path.get_char(end - 1);
        if c == '/' {
            return None;
        }
        if c == '.' {
            if end - 1 == 0 {
                return None;
            }
            if path.get_char(end - 2) == '/' {
                return None;
            }
            return Some(end - 1);
        }
        end -= 1;
    }
    None
}

/// The stem and the extension of the name that `path` ends in, if it has an extension.
pub fn split_extension(path: &str) -> (parts: Option<(&str, &str)>)
    ensures
        match parts {
            Some((stem, ext)) => stem@ == stem_of(path@) && extension_of(path@) == Some(ext@),
            None => extension_of(path@) is None && stem_of(path@) == path@,
        },
{
    match find_extension_dot(path) {
        Some(dot) => {
            let n = path.unicode_len();
            Some((path.substring_char(0, dot), path.substring_char(dot + 1, n)))
        },
        None => None,
    }
}

/// Tells from the name of a file which codec and which compression it holds.
///
/// # Errors
/// `UnsupportedFormat`, with the extension that stands for no codec, if the name tells
/// of none.
pub fn infer(path: &str) -> (r: Result<(Format, Option<Compression>), CorporeumError>)
    ensures
        match r {
            Ok(pair) => inferred(path@) matches Ok(p) && p == pair,
            Err(e) => inferred(path@) matches Err(f) && f == e@,
        },
{
    match split_extension(path) {
        None => {
            let e = unsupported_error("");
            proof {
                reveal_strlit("");
                assert(""@ =~= Seq::<char>::empty());
            }
            Err(e)
        },
        Some((stem, ext)) => match Compression::from_extension(ext) {
            Some(compression) => match split_extension(stem) {
                None => Err(unsupported_error(ext)),
                Some((_, inner)) => match Format::from_extension(inner) {
                    Some(format) => Ok((format, Some(compression))),
                    None => Err(unsupported_error(inner)),
                },
            },
            None => match Format::from_extension(ext) {
                Some(format) => Ok((format, None)),
                None => Err(unsupported_error(ext)),
            },
        },
    }
}

/// The name under which a corpus is saved at `path` in `format`, compressed with
/// `compression` if any.
pub fn target_path(path: &str, format: Format, compression: Option<Compression>) -> (name: String)
    ensures
        name@ == target(path@, format, compression),
{
    let base = match split_extension(path) {
        None => path,
        Some((stem, ext)) => if Compression::from_extension(ext).is_some() {
            match split_extension(stem) {
                Some((inner, _)) => inner,
                None => stem,
            }
        } else {
            stem
        },
    };
    let named = join3(base, ".", format.extension());
    match compression {
        Some(c) => {
            let name = join3(named.as_str(), ".", c.extension());
            assert(name@ =~= target(path@, format, compression));
            name
        },
        None => {
            assert(named@ =~= target(path@, format, compression));
            named
        },
    }
}

/// Neither a dot nor a slash stands in `ext`.
pub open spec fn is_extension(ext: Seq<char>) -> bool {
    forall|i: int| 0 <= i < ext.len() ==> ext[i] != '.' && ext[i] != '/'
}

/// Behind a stem that ends in a name, a dot and an extension are told apart again.
pub proof fn lemma_extension_found(stem: Seq<char>, ext: Seq<char>)
    requires
        is_extension(ext),
        stem.len() > 0,
        stem.last() != '/',
    ensures
        extension_of(stem + "."@ + ext) == Some(ext),
        stem_of(stem + "."@ + ext) == stem,
{
    reveal_strlit(".");
    let path = stem + "."@ + ext;
    let dot = stem.len() as int;
    lemma_scan(path, dot, path.len() as int);
    assert(path.subrange(dot + 1, path.len() as int) =~= ext);
    assert(path.subrange(0, dot) =~= stem);
}

proof fn lemma_scan(path: Seq<char>, dot: int, end: int)
    requires
        0 < dot < end <= path.len(),
        path[dot] == '.',
        path[dot - 1] != '/',
        forall|i: int| dot < i < end ==> path[i] != '.' && path[i] != '/',
    ensures
        extension_dot(path, end) == Some(dot),
    decreases end,
{
    if end - 1 > dot {
        lemma_scan(path, dot, end - 1);
    }
}

/// The extensions that the library names files with hold neither a dot nor a slash, and
/// each stands for what it was taken from.
pub proof fn lemma_extensions(format: Format, compression: Compression)
    ensures
        is_extension(format.spec_extension()),
        is_extension(compression.spec_extension()),
        Format::spec_from_extension(format.spec_extension()) == Some(format),
        Compression::spec_from_extension(compression.spec_extension()) == Some(compression),
        Compression::spec_from_extension(format.spec_extension()) is None,
        format.spec_extension().len() > 0,
{
    reveal_strlit("cbor");
    reveal_strlit("json");
    reveal_strlit("xml");
    reveal_strlit("msgpack");
    reveal_strlit("bincode");
    reveal_strlit("gz");
    reveal_strlit("zst");
    reveal_strlit("xz");
    reveal_strlit("lzma");
    assert("cbor"@[0] == 'c' && "json"@[0] == 'j' && "lzma"@[0] == 'l');
    assert("msgpack"@[0] == 'm' && "bincode"@[0] == 'b');
    assert("gz"@[0] == 'g' && "xz"@[0] == 'x');
    assert("xml"@[0] == 'x' && "zst"@[0] == 'z');
    assert("gz"@.len() == 2 && "xz"@.len() == 2 && "zst"@.len() == 3 && "lzma"@.len() == 4);
    assert("xml"@.len() == 3 && "cbor"@.len() == 4 && "json"@.len() == 4);
    assert("msgpack"@.len() == 7 && "bincode"@.len() == 7);
}

/// The name that a corpus is saved under tells of the codec and the compression that it
/// was saved with, as long as something is left of the path, and not a mere directory,
/// once its extensions are taken off.
pub proof fn lemma_target_tells(path: Seq<char>, format: Format, compression: Option<Compression>)
    requires
        bare(path).len() > 0,
        bare(path).last() != '/',
    ensures
        inferred(target(path, format, compression)) == Ok::<
            (Format, Option<Compression>),
            ErrorView,
        >((format, compression)),
{
    reveal_strlit(".");
    let base = bare(path);
    let named = base + "."@ + format.spec_extension();
    lemma_extensions(format, Compression::Flate2);
    lemma_extension_found(base, format.spec_extension());
    match compression {
        Some(c) => {
            lemma_extensions(format, c);
            assert(is_extension(format.spec_extension()));
            assert(named.last() == format.spec_extension().last());
            assert(named.last() != '/');
            lemma_extension_found(named, c.spec_extension());
            assert(target(path, format, compression) =~= named + "."@ + c.spec_extension());
        },
        None => {
            assert(target(path, format, compression) =~= named);
        },
    }
}

} // verus!
