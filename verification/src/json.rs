//! The textual codec: trees written and read as JSON by `serde_json`.

use crate::error::{CorporeumError, ErrorView};
use crate::text::starts_with;
use crate::tree::{
    Datum, Shape, Tree, fields_view, lemma_datum_is_plain, lemma_dict_parts,
    lemma_list_parts, list_view, same_datum, unfit, unfit_error,
};
use serde_json::error::Category;
use vstd::prelude::*;

verus! {

/// `serde_json::Value`, of which the library looks only at what
/// [`json_shape`] hands out.
#[verifier::external_type_specification]
#[verifier::external_body]
pub struct ExJsonValue(serde_json::Value);

/// The tree that a `serde_json::Value` holds. An object is a `Dict` whose keys are
/// texts, in the order in which the object hands out its entries; a number that is
/// an integer of 64 bits is an `Int`, any other number is `Other`.
pub uninterp spec fn json_model(value: serde_json::Value) -> Tree;

/// What `serde_json::to_vec` makes of a plain tree: the compact JSON text, or in words why
/// it writes none.
pub uninterp spec fn json_text(tree: Tree) -> Result<Seq<u8>, Seq<char>>;

/// What `serde_json::to_vec_pretty` makes of a plain tree: the indented JSON text, or in
/// words why it writes none.
pub uninterp spec fn json_pretty_text(tree: Tree) -> Result<Seq<u8>, Seq<char>>;

/// What `serde_json::from_slice` makes of a text: the tree that it reads, or why it
/// reads none.
pub uninterp spec fn json_parsed(text: Seq<u8>) -> Result<Tree, JsonFaultView>;

/// The kinds of failure that `serde_json` tells apart.
#[derive(Debug, Clone, Copy, PartialEq, Eq, Structural)]
pub enum JsonCategory {
    /// Bytes could not be read.
    Io,
    /// The text is not JSON.
    Syntax,
    /// The text is JSON, but not of the kind asked for.
    Data,
    /// The text ends too early.
    Eof,
}

/// Why `serde_json` read no tree out of a text.
#[derive(Debug)]
pub struct JsonFault {
    pub category: JsonCategory,
    /// The line at which the failure was noticed; the first line is line 1.
    pub line: usize,
    /// The column at which it was noticed: the bytes of that line read so far.
    pub column: usize,
    /// The failure in words.
    pub text: String,
}

/// A failure of the JSON reader, as mathematical values.
pub struct JsonFaultView {
    pub category: JsonCategory,
    pub line: nat,
    pub column: nat,
    pub text: Seq<char>,
}

impl View for JsonFault {
    type V = JsonFaultView;

    open spec fn view(&self) -> JsonFaultView {
        JsonFaultView {
            category: self.category,
            line: self.line as nat,
            column: self.column as nat,
            text: self.text@,
        }
    }
}

/// The trees that JSON values hold, in order.
pub open spec fn json_models(items: Seq<serde_json::Value>) -> Seq<Tree> {
    Seq::new(items.len(), |i: int| json_model(items[i]))
}

/// The keys and the trees that the entries of a JSON object hold, in order.
pub open spec fn json_entries(fields: Seq<(String, serde_json::Value)>) -> Seq<(Tree, Tree)> {
    Seq::new(fields.len(), |i: int| (Tree::Text(fields[i].0@), json_model(fields[i].1)))
}

/// The tree of one level whose lower levels are JSON values.
pub open spec fn json_shape_tree(shape: Shape<String, serde_json::Value>) -> Tree {
    match shape {
        Shape::Null => Tree::Null,
        Shape::Bool(b) => Tree::Bool(b),
        Shape::Integer(n) => Tree::Int(n as int),
        Shape::Text(s) => Tree::Text(s@),
        Shape::List(items) => Tree::List(Seq::new(items@.len(), |i: int| json_model(items@[i]))),
        Shape::Dict(fields) => Tree::Dict(
            Seq::new(
                fields@.len(),
                |i: int| (Tree::Text(fields@[i].0@), json_model(*fields@[i].1)),
            ),
        ),
        Shape::Other => Tree::Other,
    }
}

/// No name stands twice among the keys of `fields`.
pub open spec fn distinct_names<V>(fields: Seq<(String, V)>) -> bool {
    forall|i: int, j: int|
        0 <= i < fields.len() && 0 <= j < fields.len() && i != j ==> (#[trigger] fields[i]).0@ != (
        #[trigger] fields[j]).0@
}

/// `serde_json::Value::Null`.
///
/// Trusted: the value holds the tree `Null`.
#[verifier::external_body]
fn json_null() -> (value: serde_json::Value)
    ensures
        json_model(value) == Tree::Null,
{
    serde_json::Value::Null
}

/// `serde_json::Value::Bool`.
///
/// Trusted: the value holds the truth value given.
#[verifier::external_body]
fn json_bool(b: bool) -> (value: serde_json::Value)
    ensures
        json_model(value) == Tree::Bool(b),
{
    serde_json::Value::Bool(b)
}

/// `serde_json::Value::from` of an `i64`, which makes a `Number`.
///
/// Trusted: the value holds the integer given.
#[verifier::external_body]
fn json_integer(n: i64) -> (value: serde_json::Value)
    ensures
        json_model(value) == Tree::Int(n as int),
{
    serde_json::Value::from(n)
}

/// `serde_json::Value::String`.
///
/// Trusted: the value holds the text given.
#[verifier::external_body]
fn json_string(s: String) -> (value: serde_json::Value)
    ensures
        json_model(value) == Tree::Text(s@),
{
    serde_json::Value::String(s)
}

/// `serde_json::Value::Array`.
///
/// Trusted: the value holds the list of what the items hold, in their order.
#[verifier::external_body]
fn json_array(items: Vec<serde_json::Value>) -> (value: serde_json::Value)
    ensures
        json_model(value) == Tree::List(json_models(items@)),
{
    serde_json::Value::Array(items)
}

/// `serde_json::Value::Object` of the `serde_json::Map` collected from the entries. The
/// crate is built with `preserve_order`, so the map keeps the entries in the order given
/// as long as no name comes twice.
///
/// Trusted: where no name comes twice, the value holds the record of the entries, in
/// their order.
#[verifier::external_body]
fn json_object(fields: Vec<(String, serde_json::Value)>) -> (value: serde_json::Value)
    ensures
        distinct_names(fields@) ==> json_model(value) == Tree::Dict(json_entries(fields@)),
{
    serde_json::Value::Object(fields.into_iter().collect())
}

/// Tells the variants of a `serde_json::Value` apart and hands out what the variant holds;
/// of a `Number` the integer that `as_i64` gives, and `Other` where it gives none; of an
/// `Object` the entries in the order of `Map::iter`.
///
/// Trusted: what is handed out describes the tree that the value holds.
#[verifier::external_body]
fn json_shape(value: &serde_json::Value) -> (shape: Shape<'_, String, serde_json::Value>)
    ensures
        json_shape_tree(shape) == json_model(*value),
{
    match value {
        serde_json::Value::Null => Shape::Null,
        serde_json::Value::Bool(b) => Shape::Bool(*b),
        serde_json::Value::Number(n) => match n.as_i64() {
            Some(n) => Shape::Integer(n),
            None => Shape::Other,
        },
        serde_json::Value::String(s) => Shape::Text(s.as_str()),
        serde_json::Value::Array(items) => Shape::List(items),
        serde_json::Value::Object(fields) => Shape::Dict(fields.iter().collect()),
    }
}

/// `serde_json::to_vec` on a `Value`; a failure is handed out in words.
///
/// Trusted: for a plain tree what comes back, the text or the failure, is a function of
/// the tree alone.
#[verifier::external_body]
fn json_write(value: &serde_json::Value) -> (text: Result<Vec<u8>, String>)
    ensures
        json_model(*value).plain() ==> match text {
            Ok(t) => json_text(json_model(*value)) matches Ok(made) && made == t@,
            Err(words) => json_text(json_model(*value)) matches Err(why) && why == words@,
        },
{
    serde_json::to_vec(value).map_err(|e| e.to_string())
}

/// `serde_json::to_vec_pretty` on a `Value`; a failure is handed out in words.
///
/// Trusted: for a plain tree what comes back, the text or the failure, is a function of
/// the tree alone.
#[verifier::external_body]
fn json_write_pretty(value: &serde_json::Value) -> (text: Result<Vec<u8>, String>)
    ensures
        json_model(*value).plain() ==> match text {
            Ok(t) => json_pretty_text(json_model(*value)) matches Ok(made) && made == t@,
            Err(words) => json_pretty_text(json_model(*value)) matches Err(why) && why == words@,
        },
{
    serde_json::to_vec_pretty(value).map_err(|e| e.to_string())
}

/// `serde_json::from_slice` into a `Value`; of a failure the category (`classify`), the
/// line, the column and the words are handed out.
///
/// Trusted: what comes back is a function of the text alone.
#[verifier::external_body]
fn json_read(text: &[u8]) -> (r: Result<serde_json::Value, JsonFault>)
    ensures
        match r {
            Ok(value) => json_parsed(text@) matches Ok(tree) && tree == json_model(value),
            Err(fault) => json_parsed(text@) matches Err(why) && why == fault@,
        },
{
    serde_json::from_slice::<serde_json::Value>(text).map_err(|e| JsonFault {
        category: match e.classify() {
            Category::Io => JsonCategory::Io,
            Category::Syntax => JsonCategory::Syntax,
            Category::Data => JsonCategory::Data,
            Category::Eof => JsonCategory::Eof,
        },
        line: e.line(),
        column: e.column(),
        text: e.to_string(),
    })
}

/// Turns a tree of the library into the value that `serde_json` writes out. The value
/// holds the tree as long as no record in the tree holds a key twice.
pub fn to_json(datum: &Datum) -> (value: serde_json::Value)
    ensures
        datum@.keyed() ==> json_model(value) == datum@,
    decreases datum,
{
    match datum {
        Datum::Null => json_null(),
        Datum::Bool(b) => json_bool(*b),
        Datum::Integer(n) => json_integer(*n),
        Datum::Text(s) => json_string(s.clone()),
        Datum::List(items) => {
            let mut out: Vec<serde_json::Value> = Vec::new();
            let mut i: usize = 0;
            while i < items.len()
                invariant
                    i <= items.len(),
                    out.len() == i,
                    datum == Datum::List(*items),
                    datum@.keyed() ==> forall|j: int|
                        0 <= j < i ==> json_model(#[trigger] out@[j]) == items@[j]@,
                decreases items.len() - i,
            {
                assert(list_view(items@)[i as int] == items@[i as int]@);
                proof {
                    lemma_list_parts(list_view(items@));
                }
                out.push(to_json(&items[i]));
                i += 1;
            }
            proof {
                if datum@.keyed() {
                    assert(json_models(out@) =~= list_view(items@));
                }
            }
            json_array(out)
        },
        Datum::Record(fields) => {
            let mut out: Vec<(String, serde_json::Value)> = Vec::new();
            let mut i: usize = 0;
            while i < fields.len()
                invariant
                    i <= fields.len(),
                    out.len() == i,
                    datum == Datum::Record(*fields),
                    forall|j: int| 0 <= j < i ==> (#[trigger] out@[j]).0@ == fields@[j].0@,
                    datum@.keyed() ==> forall|j: int|
                        0 <= j < i ==> json_model((#[trigger] out@[j]).1) == fields@[j].1@,
                decreases fields.len() - i,
            {
                assert(fields_view(fields@)[i as int].1 == fields@[i as int].1@);
                proof {
                    lemma_dict_parts(fields_view(fields@));
                }
                out.push((fields[i].0.clone(), to_json(&fields[i].1)));
                i += 1;
            }
            proof {
                if datum@.keyed() {
                    assert forall|a: int, b: int|
                        0 <= a < out@.len() && 0 <= b < out@.len() && a != b implies (
                    #[trigger] out@[a]).0@ != (#[trigger] out@[b]).0@ by {
                        lemma_dict_parts(fields_view(fields@));
                        assert(fields_view(fields@)[a].0 != fields_view(fields@)[b].0);
                    }
                    assert(json_entries(out@) =~= fields_view(fields@));
                }
            }
            json_object(out)
        },
    }
}

/// Turns a value that `serde_json` has read into a tree of the library, unless it holds
/// something that no corpus is made of.
pub fn from_json(value: &serde_json::Value) -> (r: Result<Datum, CorporeumError>)
    ensures
        match r {
            Ok(datum) => datum@ == json_model(*value) && json_model(*value).plain(),
            Err(e) => !json_model(*value).plain() && e@ == unfit(),
        },
    decreases json_model(*value),
{
    match json_shape(value) {
        Shape::Null => Ok(Datum::Null),
        Shape::Bool(b) => Ok(Datum::Bool(b)),
        Shape::Integer(n) => Ok(Datum::Integer(n)),
        Shape::Text(s) => Ok(Datum::Text(s.to_owned())),
        Shape::List(items) => {
            let ghost below = json_model(*value)->List_0;
            let mut out: Vec<Datum> = Vec::new();
            let mut i: usize = 0;
            while i < items.len()
                invariant
                    i <= items.len(),
                    out.len() == i,
                    json_model(*value) == Tree::List(below),
                    below == Seq::new(items@.len(), |k: int| json_model(items@[k])),
                    forall|j: int| 0 <= j < i ==> (#[trigger] out@[j])@ == below[j] && below[j].plain(),
                decreases items.len() - i,
            {
                assert(below[i as int] == json_model(items@[i as int]));
                assert(decreases_to!(json_model(*value) => json_model(*value)->List_0));
                assert(decreases_to!(below => below[i as int]));
                assert(decreases_to!(json_model(*value) => below[i as int]));
                match from_json(&items[i]) {
                    Ok(datum) => {
                        assert(datum@ == below[i as int]);
                        out.push(datum);
                    },
                    Err(e) => {
                        proof {
                            lemma_list_parts(below);
                        }
                        return Err(e);
                    },
                }
                i += 1;
            }
            proof {
                assert(list_view(out@) =~= below);
                lemma_list_parts(below);
            }
            Ok(Datum::List(out))
        },
        Shape::Dict(fields) => {
            let ghost below = json_model(*value)->Dict_0;
            let mut out: Vec<(String, Datum)> = Vec::new();
            let mut i: usize = 0;
            while i < fields.len()
                invariant
                    i <= fields.len(),
                    out.len() == i,
                    json_model(*value) == Tree::Dict(below),
                    below == Seq::new(
                        fields@.len(),
                        |k: int| (Tree::Text(fields@[k].0@), json_model(*fields@[k].1)),
                    ),
                    forall|j: int|
                        0 <= j < i ==> Tree::Text((#[trigger] out@[j]).0@) == below[j].0 && out@[j].1@
                            == below[j].1 && below[j].1.plain(),
                decreases fields.len() - i,
            {
                assert(below[i as int].1 == json_model(*fields@[i as int].1));
                assert(decreases_to!(json_model(*value) => json_model(*value)->Dict_0));
                assert(decreases_to!(below => below[i as int]));
                assert(decreases_to!(below[i as int] => below[i as int].1));
                assert(decreases_to!(json_model(*value) => below[i as int].1));
                match from_json(fields[i].1) {
                    Ok(datum) => out.push((fields[i].0.clone(), datum)),
                    Err(e) => {
                        proof {
                            lemma_dict_parts(below);
                        }
                        return Err(e);
                    },
                }
                i += 1;
            }
            proof {
                assert(fields_view(out@) =~= below);
                lemma_dict_parts(below);
            }
            Ok(Datum::Record(out))
        },
        Shape::Other => Err(unfit_error()),
    }
}

/// The place that is reached from `from` in `text` once `lines` more line feeds are passed,
/// or the end of `text` if it holds fewer.
pub open spec fn past_lines(text: Seq<u8>, from: nat, lines: nat) -> nat
    decreases text.len() - from,
{
    if from >= text.len() {
        text.len()
    } else if lines == 0 {
        from
    } else if text[from as int] == 10u8 {
        past_lines(text, from + 1, (lines - 1) as nat)
    } else {
        past_lines(text, from + 1, lines)
    }
}

/// The offset into `text` of the place that the JSON reader names by line and column:
/// `column` bytes into line `line`, the first line being line 1; the end of `text` if
/// that lies beyond it.
pub open spec fn offset_at(text: Seq<u8>, line: nat, column: nat) -> nat {
    let start = past_lines(text, 0, if line == 0 {
        0
    } else {
        (line - 1) as nat
    });
    if start + column <= text.len() {
        start + column
    } else {
        text.len()
    }
}

/// The error that a failure of the JSON reader on `text` is reported as.
pub open spec fn json_failure(text: Seq<u8>, fault: JsonFaultView) -> ErrorView {
    let at = offset_at(text, fault.line, fault.column);
    match fault.category {
        JsonCategory::Io => ErrorView::Io(fault.text),
        JsonCategory::Eof => ErrorView::SyntaxError(at),
        JsonCategory::Syntax => if "recursion limit exceeded"@.is_prefix_of(fault.text) {
            ErrorView::FailedToParseRecursionLimitExceeded
        } else {
            ErrorView::SyntaxError(at)
        },
        JsonCategory::Data => ErrorView::FailedToParseSemantic(Some(at), fault.text),
    }
}

/// What reading JSON makes of a text: a plain tree, or the error that tells why not.
pub open spec fn json_decoded(text: Seq<u8>) -> Result<Tree, ErrorView> {
    match json_parsed(text) {
        Ok(tree) => if tree.plain() {
            Ok(tree)
        } else {
            Err(unfit())
        },
        Err(fault) => Err(json_failure(text, fault)),
    }
}

/// The offset into `text` of the place that the JSON reader names by line and column.
pub fn offset(text: &[u8], line: usize, column: usize) -> (at: usize)
    ensures
        at == offset_at(text@, line as nat, column as nat),
{
    let mut from: usize = 0;
    let mut lines: usize = if line == 0 {
        0
    } else {
        line - 1
    };
    while from < text.len() && lines > 0
        invariant
            from <= text.len(),
            past_lines(text@, from as nat, lines as nat) == past_lines(
                text@,
                0,
                if line == 0 {
                    0
                } else {
                    (line - 1) as nat
                },
            ),
        decreases text.len() - from,
    {
        if text[from] == 10u8 {
            lines -= 1;
        }
        from += 1;
    }
    if column <= text.len() - from {
        from + column
    } else {
        text.len()
    }
}

/// The error that a failure of the JSON reader on `text` is reported as.
pub fn json_error(text: &[u8], fault: JsonFault) -> (e: CorporeumError)
    ensures
        e@ == json_failure(text@, fault@),
{
    let at = offset(text, fault.line, fault.column);
    match fault.category {
        JsonCategory::Io => CorporeumError::Io(fault.text),
        JsonCategory::Eof => CorporeumError::SyntaxError(at),
        JsonCategory::Syntax => if starts_with(fault.text.as_str(), "recursion limit exceeded") {
            CorporeumError::FailedToParseRecursionLimitExceeded
        } else {
            CorporeumError::SyntaxError(at)
        },
        JsonCategory::Data => CorporeumError::FailedToParseSemantic(Some(at), fault.text),
    }
}

/// What is made of the text, or the failure in words, that the JSON writer came back with.
pub fn json_written(text: Result<Vec<u8>, String>) -> (r: Result<Vec<u8>, CorporeumError>)
    ensures
        match text {
            Ok(t) => r matches Ok(bytes) && bytes == t,
            Err(why) => r matches Err(e) && e@ == ErrorView::BadValue(why@),
        },
{
    match text {
        Ok(t) => Ok(t),
        Err(why) => Err(CorporeumError::BadValue(why)),
    }
}

/// The error for a text that a codec wrote and that is not read back as what was written.
pub open spec fn unread() -> ErrorView {
    ErrorView::BadValue("what was written does not read back as the same"@)
}

/// The error for a text that a codec wrote and that is not read back as what was written.
pub fn unread_error() -> (e: CorporeumError)
    ensures
        e@ == unread(),
{
    CorporeumError::BadValue("what was written does not read back as the same".to_owned())
}

/// What the JSON writer makes of a tree, indented if `pretty`.
pub open spec fn json_laid(tree: Tree, pretty: bool) -> Result<Seq<u8>, Seq<char>> {
    if pretty {
        json_pretty_text(tree)
    } else {
        json_text(tree)
    }
}

/// What writing a tree as JSON comes to: the text that the writer makes, if it makes one
/// and the text is read back as the same tree; or the error that tells why nothing is
/// handed out.
pub open spec fn json_saved(tree: Tree, pretty: bool) -> Result<Seq<u8>, ErrorView> {
    match json_laid(tree, pretty) {
        Err(why) => Err(ErrorView::BadValue(why)),
        Ok(text) => if json_decoded(text) == Ok::<Tree, ErrorView>(tree) {
            Ok(text)
        } else {
            Err(unread())
        },
    }
}

/// Writes a tree as JSON, indented if `pretty`.
///
/// What is written is read back before it is handed out, so that what is handed out
/// is read as the same tree. As long as no record in the tree holds a key twice, the
/// outcome depends on the tree and on `pretty` alone: the call succeeds exactly where
/// the writer makes a text that is read back as the same tree.
///
/// # Errors
/// `BadValue` if the writer refuses the tree, or writes what is not read back as the same.
pub fn write_json(datum: &Datum, pretty: bool) -> (r: Result<Vec<u8>, CorporeumError>)
    ensures
        match r {
            Ok(text) => json_decoded(text@) matches Ok(tree) && tree == datum@,
            Err(e) => e@ is BadValue,
        },
        datum@.keyed() ==> (r is Ok <==> json_saved(datum@, pretty) is Ok),
        datum@.keyed() ==> match r {
            Ok(text) => json_saved(datum@, pretty) matches Ok(made) && made == text@,
            Err(e) => json_saved(datum@, pretty) matches Err(why) && why == e@,
        },
{
    proof {
        lemma_datum_is_plain(*datum);
    }
    let value = to_json(datum);
    let text = if pretty {
        json_written(json_write_pretty(&value))?
    } else {
        json_written(json_write(&value))?
    };
    match read_json(text.as_slice()) {
        Ok(back) => if same_datum(&back, datum) {
            Ok(text)
        } else {
            Err(unread_error())
        },
        Err(_) => Err(unread_error()),
    }
}

/// Reads a tree out of JSON.
///
/// # Errors
/// `SyntaxError` with the offset at which the text stops being JSON;
/// `FailedToParseRecursionLimitExceeded` if it is nested too deeply;
/// `FailedToParseSemantic` if it holds a value of a kind that no corpus holds.
pub fn read_json(text: &[u8]) -> (r: Result<Datum, CorporeumError>)
    ensures
        match r {
            Ok(datum) => json_decoded(text@) matches Ok(tree) && tree == datum@,
            Err(e) => json_decoded(text@) matches Err(f) && f == e@,
        },
{
    match json_read(text) {
        Ok(value) => from_json(&value),
        Err(fault) => Err(json_error(text, fault)),
    }
}

} // verus!
