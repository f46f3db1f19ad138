//! The compact binary codec: trees written and read as CBOR by `ciborium`.

use crate::error::{CorporeumError, ErrorView};
use crate::json::{unread, unread_error};
use crate::tree::{
    Datum, Shape, Tree, fields_view, lemma_datum_is_plain, lemma_dict_parts,
    lemma_list_parts, list_view, same_datum, unfit, unfit_error,
};
use ciborium::de::Error as ReadError;
use ciborium::ser::Error as WriteError;
use vstd::prelude::*;

verus! {

/// `ciborium::Value`, of which the library looks only at what
/// [`cbor_shape`] hands out.
#[verifier::external_type_specification]
#[verifier::external_body]
pub struct ExCborValue(ciborium::Value);

/// The tree that a `ciborium::Value` holds. A map is a `Dict` of its entries, in their
/// order; an integer of 64 bits is an `Int`; a fraction, an integer beyond 64 bits, raw
/// bytes and a tag are `Other`.
pub uninterp spec fn cbor_model(value: ciborium::Value) -> Tree;

/// What `ciborium::into_writer` makes of a plain tree: the bytes, or the error that tells
/// why it writes none.
pub uninterp spec fn cbor_bytes(tree: Tree) -> Result<Seq<u8>, ErrorView>;

/// What `ciborium::from_reader` makes of bytes: the tree of the first item that it reads,
/// or why it reads none.
pub uninterp spec fn cbor_parsed(bytes: Seq<u8>) -> Result<Tree, ErrorView>;

/// The trees that CBOR values hold, in order.
pub open spec fn cbor_models(items: Seq<ciborium::Value>) -> Seq<Tree> {
    Seq::new(items.len(), |i: int| cbor_model(items[i]))
}

/// The trees that the keys and the values of the entries of a CBOR map hold, in order.
pub open spec fn cbor_entries(fields: Seq<(ciborium::Value, ciborium::Value)>) -> Seq<(Tree, Tree)> {
    Seq::new(fields.len(), |i: int| (cbor_model(fields[i].0), cbor_model(fields[i].1)))
}

/// The tree of one level whose lower levels are CBOR values.
pub open spec fn cbor_shape_tree(shape: Shape<ciborium::Value, ciborium::Value>) -> Tree {
    match shape {
        Shape::Null => Tree::Null,
        Shape::Bool(b) => Tree::Bool(b),
        Shape::Integer(n) => Tree::Int(n as int),
        Shape::Text(s) => Tree::Text(s@),
        Shape::List(items) => Tree::List(Seq::new(items@.len(), |i: int| cbor_model(items@[i]))),
        Shape::Dict(fields) => Tree::Dict(
            Seq::new(
                fields@.len(),
                |i: int| (cbor_model(*fields@[i].0), cbor_model(*fields@[i].1)),
            ),
        ),
        Shape::Other => Tree::Other,
    }
}

/// The failures that reading CBOR ends in.
pub open spec fn is_read_failure(e: ErrorView) -> bool {
    ||| e is Io
    ||| e is SyntaxError
    ||| e is FailedToParseSemantic
    ||| e is FailedToParseRecursionLimitExceeded
}

/// `ciborium::Value::Null`.
///
/// Trusted: the value holds the tree `Null`.
#[verifier::external_body]
fn cbor_null() -> (value: ciborium::Value)
    ensures
        cbor_model(value) == Tree::Null,
{
    ciborium::Value::Null
}

/// `ciborium::Value::Bool`.
///
/// Trusted: the value holds the truth value given.
#[verifier::external_body]
fn cbor_bool(b: bool) -> (value: ciborium::Value)
    ensures
        cbor_model(value) == Tree::Bool(b),
{
    ciborium::Value::Bool(b)
}

/// `ciborium::Value::Integer` of the `Integer` that `From` makes of an `i64`.
///
/// Trusted: the value holds the integer given.
#[verifier::external_body]
fn cbor_integer(n: i64) -> (value: ciborium::Value)
    ensures
        cbor_model(value) == Tree::Int(n as int),
{
    ciborium::Value::Integer(n.into())
}

/// `ciborium::Value::Text`.
///
/// Trusted: the value holds the text given.
#[verifier::external_body]
fn cbor_text(s: String) -> (value: ciborium::Value)
    ensures
        cbor_model(value) == Tree::Text(s@),
{
    ciborium::Value::Text(s)
}

/// `ciborium::Value::Array`.
///
/// Trusted: the value holds the list of what the items hold, in their order.
#[verifier::external_body]
fn cbor_array(items: Vec<ciborium::Value>) -> (value: ciborium::Value)
    ensures
        cbor_model(value) == Tree::List(cbor_models(items@)),
{
    ciborium::Value::Array(items)
}

/// `ciborium::Value::Map`.
///
/// Trusted: the value holds the record of the entries, in their order.
#[verifier::external_body]
fn cbor_map(fields: Vec<(ciborium::Value, ciborium::Value)>) -> (value: ciborium::Value)
    ensures
        cbor_model(value) == Tree::Dict(cbor_entries(fields@)),
{
    ciborium::Value::Map(fields)
}

/// Tells the variants of a `ciborium::Value` apart and hands out what the variant holds;
/// of an `Integer` the `i64` that `i64::try_from` gives, and `Other` where it gives none;
/// `Other` too for `Bytes`, `Float`, `Tag` and whatever variant may be added.
///
/// Trusted: what is handed out describes the tree that the value holds.
#[verifier::external_body]
fn cbor_shape(value: &ciborium::Value) -> (shape: Shape<'_, ciborium::Value, ciborium::Value>)
    ensures
        cbor_shape_tree(shape) == cbor_model(*value),
{
    match value {
        ciborium::Value::Null => Shape::Null,
        ciborium::Value::Bool(b) => Shape::Bool(*b),
        ciborium::Value::Integer(n) => match i64::try_from(*n) {
            Ok(n) => Shape::Integer(n),
            Err(_) => Shape::Other,
        },
        ciborium::Value::Text(s) => Shape::Text(s.as_str()),
        ciborium::Value::Array(items) => Shape::List(items),
        ciborium::Value::Map(fields) => Shape::Dict(fields.iter().map(|f| (&f.0, &f.1)).collect()),
        _ => Shape::Other,
    }
}

/// `ciborium::into_writer` on a `Value`, into a fresh vector; the two failures that it
/// knows become `Io` and `BadValue`.
///
/// Trusted: for a plain tree what comes back, the bytes or the failure, is a function of
/// the tree alone.
#[verifier::external_body]
fn cbor_write(value: &ciborium::Value) -> (bytes: Result<Vec<u8>, CorporeumError>)
    ensures
        bytes matches Err(e) ==> e@ is Io || e@ is BadValue,
        cbor_model(*value).plain() ==> match bytes {
            Ok(b) => cbor_bytes(cbor_model(*value)) matches Ok(made) && made == b@,
            Err(e) => cbor_bytes(cbor_model(*value)) matches Err(why) && why == e@,
        },
{
    let mut out = Vec::new();
    match ciborium::into_writer(value, &mut out) {
        Ok(()) => Ok(out),
        Err(WriteError::Io(e)) => Err(CorporeumError::Io(e.to_string())),
        Err(WriteError::Value(text)) => Err(CorporeumError::BadValue(text)),
    }
}

/// `ciborium::from_reader` into a `Value`; the four failures that it knows become the
/// errors of the same names.
///
/// Trusted: what comes back is a function of the bytes alone.
#[verifier::external_body]
fn cbor_read(bytes: &[u8]) -> (r: Result<ciborium::Value, CorporeumError>)
    ensures
        match r {
            Ok(value) => cbor_parsed(bytes@) matches Ok(tree) && tree == cbor_model(value),
            Err(e) => cbor_parsed(bytes@) matches Err(why) && why == e@ && is_read_failure(e@),
        },
{
    match ciborium::from_reader::<ciborium::Value, &[u8]>(bytes) {
        Ok(value) => Ok(value),
        Err(ReadError::Io(e)) => Err(CorporeumError::Io(e.to_string())),
        Err(ReadError::Syntax(at)) => Err(CorporeumError::SyntaxError(at)),
        Err(ReadError::Semantic(at, text)) => Err(CorporeumError::FailedToParseSemantic(at, text)),
        Err(ReadError::RecursionLimitExceeded) => {
            Err(CorporeumError::FailedToParseRecursionLimitExceeded)
        },
    }
}

/// Turns a tree of the library into the value that `ciborium` writes out.
pub fn to_cbor(datum: &Datum) -> (value: ciborium::Value)
    ensures
        cbor_model(value) == datum@,
    decreases datum,
{
    match datum {
        Datum::Null => cbor_null(),
        Datum::Bool(b) => cbor_bool(*b),
        Datum::Integer(n) => cbor_integer(*n),
        Datum::Text(s) => cbor_text(s.clone()),
        Datum::List(items) => {
            let mut out: Vec<ciborium::Value> = Vec::new();
            let mut i: usize = 0;
            while i < items.len()
                invariant
                    i <= items.len(),
                    out.len() == i,
                    datum == Datum::List(*items),
                    forall|j: int| 0 <= j < i ==> cbor_model(#[trigger] out@[j]) == items@[j]@,
                decreases items.len() - i,
            {
                assert(decreases_to!(datum => datum->List_0));
                assert(decreases_to!(items => items@));
                assert(decreases_to!(items@ => items@[i as int]));
                out.push(to_cbor(&items[i]));
                i += 1;
            }
            assert(cbor_models(out@) =~= list_view(items@));
            cbor_array(out)
        },
        Datum::Record(fields) => {
            let mut out: Vec<(ciborium::Value, ciborium::Value)> = Vec::new();
            let mut i: usize = 0;
            while i < fields.len()
                invariant
                    i <= fields.len(),
                    out.len() == i,
                    datum == Datum::Record(*fields),
                    forall|j: int|
                        0 <= j < i ==> cbor_model((#[trigger] out@[j]).0) == Tree::Text(
                            fields@[j].0@,
                        ) && cbor_model(out@[j].1) == fields@[j].1@,
                decreases fields.len() - i,
            {
                assert(decreases_to!(datum => datum->Record_0));
                assert(decreases_to!(fields => fields@));
                assert(decreases_to!(fields@ => fields@[i as int]));
                assert(decreases_to!(fields@[i as int] => fields@[i as int].1));
                let key = cbor_text(fields[i].0.clone());
                out.push((key, to_cbor(&fields[i].1)));
                i += 1;
            }
            assert(cbor_entries(out@) =~= fields_view(fields@));
            cbor_map(out)
        },
    }
}

/// Turns a value that `ciborium` has read into a tree of the library, unless it holds
/// something that no corpus is made of.
pub fn from_cbor(value: &ciborium::Value) -> (r: Result<Datum, CorporeumError>)
    ensures
        match r {
            Ok(datum) => datum@ == cbor_model(*value) && cbor_model(*value).plain(),
            Err(e) => !cbor_model(*value).plain() && e@ == unfit(),
        },
    decreases cbor_model(*value),
{
    match cbor_shape(value) {
        Shape::Null => Ok(Datum::Null),
        Shape::Bool(b) => Ok(Datum::Bool(b)),
        Shape::Integer(n) => Ok(Datum::Integer(n)),
        Shape::Text(s) => Ok(Datum::Text(s.to_owned())),
        Shape::List(items) => {
            let ghost below = cbor_model(*value)->List_0;
            let mut out: Vec<Datum> = Vec::new();
            let mut i: usize = 0;
            while i < items.len()
                invariant
                    i <= items.len(),
                    out.len() == i,
                    cbor_model(*value) == Tree::List(below),
                    below == Seq::new(items@.len(), |k: int| cbor_model(items@[k])),
                    forall|j: int| 0 <= j < i ==> (#[trigger] out@[j])@ == below[j] && below[j].plain(),
                decreases items.len() - i,
            {
                assert(below[i as int] == cbor_model(items@[i as int]));
                assert(decreases_to!(cbor_model(*value) => cbor_model(*value)->List_0));
                assert(decreases_to!(below => below[i as int]));
                match from_cbor(&items[i]) {
                    Ok(datum) => {
                        assert(datum@ == below[i as int]);
                        out.push(datum);
                    },
                    Err(e) => {
                        proof {
                            lemma_list_parts(below);
                        }
                        return Err(e);
                    },
                }
                i += 1;
            }
            proof {
                assert(list_view(out@) =~= below);
                lemma_list_parts(below);
            }
            Ok(Datum::List(out))
        },
        Shape::Dict(fields) => {
            let ghost below = cbor_model(*value)->Dict_0;
            let mut out: Vec<(String, Datum)> = Vec::new();
            let mut i: usize = 0;
            while i < fields.len()
                invariant
                    i <= fields.len(),
                    out.len() == i,
                    cbor_model(*value) == Tree::Dict(below),
                    below == Seq::new(
                        fields@.len(),
                        |k: int| (cbor_model(*fields@[k].0), cbor_model(*fields@[k].1)),
                    ),
                    forall|j: int|
                        0 <= j < i ==> Tree::Text((#[trigger] out@[j]).0@) == below[j].0 && out@[j].1@
                            == below[j].1 && below[j].1.plain(),
                decreases fields.len() - i,
            {
                assert(below[i as int].0 == cbor_model(*fields@[i as int].0));
                assert(below[i as int].1 == cbor_model(*fields@[i as int].1));
                assert(decreases_to!(cbor_model(*value) => cbor_model(*value)->Dict_0));
                assert(decreases_to!(below => below[i as int]));
                assert(decreases_to!(below[i as int] => below[i as int].1));
                let name = match cbor_shape(fields[i].0) {
                    Shape::Text(s) => {
                        assert(Tree::Text(s@) == below[i as int].0);
                        s.to_owned()
                    },
                    _ => {
                        proof {
                            lemma_dict_parts(below);
                        }
                        return Err(unfit_error());
                    },
                };
                match from_cbor(fields[i].1) {
                    Ok(datum) => {
                        assert(datum@ == below[i as int].1);
                        out.push((name, datum));
                    },
                    Err(e) => {
                        proof {
                            lemma_dict_parts(below);
                        }
                        return Err(e);
                    },
                }
                i += 1;
            }
            proof {
                assert(fields_view(out@) =~= below);
                lemma_dict_parts(below);
            }
            Ok(Datum::Record(out))
        },
        Shape::Other => Err(unfit_error()),
    }
}

/// What reading CBOR makes of bytes: a plain tree, or the error that tells why not.
pub open spec fn cbor_decoded(bytes: Seq<u8>) -> Result<Tree, ErrorView> {
    match cbor_parsed(bytes) {
        Ok(tree) => if tree.plain() {
            Ok(tree)
        } else {
            Err(unfit())
        },
        Err(e) => Err(e),
    }
}

/// What writing a tree as CBOR comes to: the bytes that the writer makes, if it makes
/// any and they are read back as the same tree; or the error that tells why nothing is
/// handed out.
pub open spec fn cbor_saved(tree: Tree) -> Result<Seq<u8>, ErrorView> {
    match cbor_bytes(tree) {
        Err(e) => Err(e),
        Ok(bytes) => if cbor_decoded(bytes) == Ok::<Tree, ErrorView>(tree) {
            Ok(bytes)
        } else {
            Err(unread())
        },
    }
}

/// Writes a tree as CBOR.
///
/// What is written is read back before it is handed out, so that what is handed out
/// is read as the same tree. The outcome depends on the tree alone: the call succeeds
/// exactly where the writer makes bytes that are read back as the same tree.
///
/// # Errors
/// `BadValue` if the writer refuses the tree, or writes what is not read back as the
/// same; `Io` if it cannot write.
pub fn write_cbor(datum: &Datum) -> (r: Result<Vec<u8>, CorporeumError>)
    ensures
        r is Ok <==> cbor_saved(datum@) is Ok,
        match r {
            Ok(bytes) => {
                &&& cbor_saved(datum@) matches Ok(made) && made == bytes@
                &&& cbor_decoded(bytes@) matches Ok(tree) && tree == datum@
            },
            Err(e) => {
                &&& cbor_saved(datum@) matches Err(why) && why == e@
                &&& e@ is Io || e@ is BadValue
            },
        },
{
    proof {
        lemma_datum_is_plain(*datum);
    }
    let value = to_cbor(datum);
    let bytes = cbor_write(&value)?;
    match read_cbor(bytes.as_slice()) {
        Ok(back) => if same_datum(&back, datum) {
            Ok(bytes)
        } else {
            Err(unread_error())
        },
        Err(_) => Err(unread_error()),
    }
}

/// Reads a tree out of CBOR.
///
/// # Errors
/// `Io` if the bytes end early; `SyntaxError` with the offset at which they stop being
/// CBOR; `FailedToParseSemantic` if they hold what cannot be read as a value, or a value
/// of a kind that no corpus holds; `FailedToParseRecursionLimitExceeded` if they are
/// nested too deeply.
pub fn read_cbor(bytes: &[u8]) -> (r: Result<Datum, CorporeumError>)
    ensures
        match r {
            Ok(datum) => cbor_decoded(bytes@) matches Ok(tree) && tree == datum@,
            Err(e) => cbor_decoded(bytes@) matches Err(f) && f == e@,
        },
{
    match cbor_read(bytes) {
        Ok(value) => from_cbor(&value),
        Err(e) => Err(e),
    }
}

} // verus!
