//! How a corpus is laid out as a tree, and read back from one.
//!
//! Every entity is a record. A field that holds nothing, be it an option
//! without a value or an empty list, is left out when the record is written,
//! and a record that lacks such a field, or holds `Null` in it, is read as
//! holding nothing there. Fields that the library does not know are passed over.

use crate::author::Author;
use crate::corpus::{Corpus, CorpusView};
use crate::document::Document;
use crate::error::{CorporeumError, ErrorView};
use crate::model::views;
use crate::metadata::{Metadata, MetadataView, distinct_authors, names_distinct};
use crate::text::{join3, str_text_of, text_of};
use crate::tree::{
    Datum, Tree, fields_view, lemma_fit_dict, lemma_fit_list,
    lemma_fit_with_field, lemma_with_field, list_view, with_field,
};
use vstd::prelude::*;

verus! {

/// The error for a record that lacks a field it must have.
pub open spec fn missing(name: Seq<char>) -> ErrorView {
    ErrorView::FailedToParseSemantic(None, "missing field "@ + name)
}

/// The error for a value that does not fit the place it stands in.
pub open spec fn invalid(name: Seq<char>) -> ErrorView {
    ErrorView::FailedToParseSemantic(None, "invalid value for "@ + name)
}

/// The integer between `lo` and `hi` that the record `tree` must hold in the field `name`.
pub open spec fn need_int(tree: Tree, name: Seq<char>, lo: int, hi: int) -> Result<int, ErrorView> {
    match tree.field(name) {
        None => Err(missing(name)),
        Some(Tree::Int(n)) => if lo <= n <= hi {
            Ok(n)
        } else {
            Err(invalid(name))
        },
        Some(_) => Err(invalid(name)),
    }
}

/// The integer between `lo` and `hi` that the record `tree` may hold in the field `name`.
pub open spec fn opt_int(tree: Tree, name: Seq<char>, lo: int, hi: int) -> Result<
    Option<int>,
    ErrorView,
> {
    match tree.field(name) {
        None | Some(Tree::Null) => Ok(None),
        Some(Tree::Int(n)) => if lo <= n <= hi {
            Ok(Some(n))
        } else {
            Err(invalid(name))
        },
        Some(_) => Err(invalid(name)),
    }
}

/// The text that the record `tree` must hold in the field `name`.
pub open spec fn need_text(tree: Tree, name: Seq<char>) -> Result<Seq<char>, ErrorView> {
    match tree.field(name) {
        None => Err(missing(name)),
        Some(Tree::Text(s)) => Ok(s),
        Some(_) => Err(invalid(name)),
    }
}

/// The text that the record `tree` may hold in the field `name`.
pub open spec fn opt_text(tree: Tree, name: Seq<char>) -> Result<Option<Seq<char>>, ErrorView> {
    match tree.field(name) {
        None | Some(Tree::Null) => Ok(None),
        Some(Tree::Text(s)) => Ok(Some(s)),
        Some(_) => Err(invalid(name)),
    }
}

/// The items of the list that the record `tree` may hold in the field `name`.
pub open spec fn opt_list(tree: Tree, name: Seq<char>) -> Result<Seq<Tree>, ErrorView> {
    match tree.field(name) {
        None | Some(Tree::Null) => Ok(Seq::empty()),
        Some(Tree::List(items)) => Ok(items),
        Some(_) => Err(invalid(name)),
    }
}

/// What `read` makes of each of `items`, in order; the first failure, if there is one.
pub open spec fn each<T>(items: Seq<Tree>, read: spec_fn(Tree) -> Result<T, ErrorView>) -> Result<
    Seq<T>,
    ErrorView,
>
    decreases items.len(),
{
    if items.len() == 0 {
        Ok(Seq::empty())
    } else {
        match each(items.drop_last(), read) {
            Err(e) => Err(e),
            Ok(front) => match read(items.last()) {
                Err(e) => Err(e),
                Ok(x) => Ok(front.push(x)),
            },
        }
    }
}

/// How an optional text is written: left out where there is none.
pub open spec fn opt_text_tree(text: Option<Seq<char>>) -> Option<Tree> {
    match text {
        Some(s) => Some(Tree::Text(s)),
        None => None,
    }
}

/// How an optional integer is written: left out where there is none.
pub open spec fn opt_int_tree(n: Option<i64>) -> Option<Tree> {
    match n {
        Some(n) => Some(Tree::Int(n as int)),
        None => None,
    }
}

/// How a list is written: left out where it is empty.
pub open spec fn list_tree(items: Seq<Tree>) -> Option<Tree> {
    if items.len() == 0 {
        None
    } else {
        Some(Tree::List(items))
    }
}

/// The error for a record that lacks a field it must have.
pub fn missing_error(name: &str) -> (e: CorporeumError)
    ensures
        e@ == missing(name@),
{
    let text = join3("missing field ", name, "");
    assert(text@ =~= "missing field "@ + name@) by {
        reveal_strlit("");
    }
    CorporeumError::FailedToParseSemantic(None, text)
}

/// The error for a value that does not fit the place it stands in.
pub fn invalid_error(name: &str) -> (e: CorporeumError)
    ensures
        e@ == invalid(name@),
{
    let text = join3("invalid value for ", name, "");
    assert(text@ =~= "invalid value for "@ + name@) by {
        reveal_strlit("");
    }
    CorporeumError::FailedToParseSemantic(None, text)
}

/// Reads the integer between `lo` and `hi` that the record must hold in the field `name`.
pub fn read_int(record: &Datum, name: &str, lo: i64, hi: i64) -> (r: Result<i64, CorporeumError>)
    ensures
        match r {
            Ok(n) => need_int(record@, name@, lo as int, hi as int) matches Ok(m) && m == n,
            Err(e) => need_int(record@, name@, lo as int, hi as int) matches Err(f) && f == e@,
        },
{
    match record.field(name) {
        None => Err(missing_error(name)),
        Some(Datum::Integer(n)) => if lo <= *n && *n <= hi {
            Ok(*n)
        } else {
            Err(invalid_error(name))
        },
        Some(_) => Err(invalid_error(name)),
    }
}

/// Reads the integer between `lo` and `hi` that the record may hold in the field `name`.
pub fn read_opt_int(record: &Datum, name: &str, lo: i64, hi: i64) -> (r: Result<
    Option<i64>,
    CorporeumError,
>)
    ensures
        match r {
            Ok(Some(n)) => opt_int(record@, name@, lo as int, hi as int) matches Ok(Some(m)) && m
                == n,
            Ok(None) => opt_int(record@, name@, lo as int, hi as int) matches Ok(None),
            Err(e) => opt_int(record@, name@, lo as int, hi as int) matches Err(f) && f == e@,
        },
{
    match record.field(name) {
        None => Ok(None),
        Some(Datum::Null) => Ok(None),
        Some(Datum::Integer(n)) => if lo <= *n && *n <= hi {
            Ok(Some(*n))
        } else {
            Err(invalid_error(name))
        },
        Some(_) => Err(invalid_error(name)),
    }
}

/// Reads the text that the record must hold in the field `name`.
pub fn read_text(record: &Datum, name: &str) -> (r: Result<String, CorporeumError>)
    ensures
        match r {
            Ok(s) => need_text(record@, name@) matches Ok(t) && t == s@,
            Err(e) => need_text(record@, name@) matches Err(f) && f == e@,
        },
{
    match record.field(name) {
        None => Err(missing_error(name)),
        Some(Datum::Text(s)) => Ok(s.clone()),
        Some(_) => Err(invalid_error(name)),
    }
}

/// Reads the text that the record may hold in the field `name`.
pub fn read_opt_text(record: &Datum, name: &str) -> (r: Result<Option<String>, CorporeumError>)
    ensures
        match r {
            Ok(s) => opt_text(record@, name@) matches Ok(t) && t == text_of(s),
            Err(e) => opt_text(record@, name@) matches Err(f) && f == e@,
        },
{
    match record.field(name) {
        None => Ok(None),
        Some(Datum::Null) => Ok(None),
        Some(Datum::Text(s)) => Ok(Some(s.clone())),
        Some(_) => Err(invalid_error(name)),
    }
}

/// Reads the list that the record may hold in the field `name`; `None` stands for no items.
pub fn read_list<'a>(record: &'a Datum, name: &str) -> (r: Result<
    Option<&'a Vec<Datum>>,
    CorporeumError,
>)
    ensures
        match r {
            Ok(Some(items)) => opt_list(record@, name@) matches Ok(l) && l == list_view(items@),
            Ok(None) => opt_list(record@, name@) matches Ok(l) && l == Seq::<Tree>::empty(),
            Err(e) => opt_list(record@, name@) matches Err(f) && f == e@,
        },
{
    match record.field(name) {
        None => Ok(None),
        Some(Datum::Null) => Ok(None),
        Some(Datum::List(items)) => Ok(Some(items)),
        Some(_) => Err(invalid_error(name)),
    }
}

/// The tree of an optional value.
pub open spec fn opt_view(value: Option<Datum>) -> Option<Tree> {
    match value {
        Some(v) => Some(v@),
        None => None,
    }
}

/// Writes `value`, where there is one, behind the fields under the key `name`.
pub fn put(fields: &mut Vec<(String, Datum)>, name: &str, value: Option<Datum>)
    ensures
        fields_view(final(fields)@) == with_field(fields_view(old(fields)@), name@, opt_view(value)),
{
    match value {
        Some(v) => {
            fields.push((name.to_owned(), v));
            assert(fields_view(fields@) =~= with_field(
                fields_view(old(fields)@),
                name@,
                opt_view(value),
            ));
        },
        None => {},
    }
}

/// An optional text as it is written: left out where there is none.
pub fn opt_text_datum(text: Option<&str>) -> (d: Option<Datum>)
    ensures
        opt_view(d) == opt_text_tree(str_text_of(text)),
{
    match text {
        Some(s) => Some(Datum::Text(s.to_owned())),
        None => None,
    }
}

/// What a corpus is made of, below the corpus itself: each entity is written as a
/// record of its own and read back from one.
pub trait Entity: Sized {
    /// What the entity holds, as mathematical values.
    type Model;

    /// What this entity holds.
    spec fn model(&self) -> Self::Model;

    /// The record that an entity is written as.
    spec fn tree_of(model: Self::Model) -> Tree;

    /// The entity that a tree is read as, or why it is read as none.
    spec fn of_tree(tree: Tree) -> Result<Self::Model, ErrorView>;

    /// Lays this entity out as a tree.
    fn to_datum(&self) -> (d: Datum)
        ensures
            d@ == Self::tree_of(self.model()),
    ;

    /// Reads an entity out of a tree.
    ///
    /// # Errors
    /// A semantic error if the tree is no record, lacks a field that the entity must have,
    /// or holds in a field what does not belong there.
    fn from_datum(d: &Datum) -> (r: Result<Self, CorporeumError>)
        ensures
            match r {
                Ok(entity) => Self::of_tree(d@) matches Ok(m) && m == entity.model(),
                Err(e) => Self::of_tree(d@) matches Err(f) && f == e@,
            },
    ;

    /// An entity that was written as a tree is read back as it was, and the tree is one
    /// that the codecs take.
    proof fn lemma_round_trip(model: Self::Model)
        ensures
            Self::of_tree(Self::tree_of(model)) == Ok::<Self::Model, ErrorView>(model),
            Self::tree_of(model).fit(),
    ;
}

/// What each of `items` holds, in order.
pub open spec fn models<T: Entity>(items: Seq<T>) -> Seq<T::Model> {
    Seq::new(items.len(), |i: int| items[i].model())
}

/// The records that `models` are written as, in order.
pub open spec fn trees<T: Entity>(models: Seq<T::Model>) -> Seq<Tree> {
    Seq::new(models.len(), |i: int| T::tree_of(models[i]))
}

/// The entities that the items of a list are read as; the first failure, if there is one.
pub open spec fn entities<T: Entity>(items: Seq<Tree>) -> Result<Seq<T::Model>, ErrorView> {
    each(items, |tree: Tree| T::of_tree(tree))
}

/// The trees of a list that may be left out.
pub open spec fn items_view(items: Option<&Vec<Datum>>) -> Seq<Tree> {
    match items {
        Some(items) => list_view(items@),
        None => Seq::empty(),
    }
}

/// A failure among the first items is the failure of the whole list.
pub proof fn lemma_each_fails<T>(
    items: Seq<Tree>,
    read: spec_fn(Tree) -> Result<T, ErrorView>,
    n: int,
)
    requires
        0 <= n <= items.len(),
        each(items.take(n), read) is Err,
    ensures
        each(items, read) == each(items.take(n), read),
    decreases items.len() - n,
{
    if n < items.len() {
        assert(items.take(n + 1).drop_last() =~= items.take(n));
        lemma_each_fails(items, read, n + 1);
    } else {
        assert(items.take(n) =~= items);
    }
}

/// Entities that were written as a list are read back as they were, and their records
/// are such that the codecs take them.
pub proof fn lemma_entities_round_trip<T: Entity>(models: Seq<T::Model>)
    ensures
        entities::<T>(trees::<T>(models)) == Ok::<Seq<T::Model>, ErrorView>(models),
        forall|i: int| 0 <= i < models.len() ==> (#[trigger] trees::<T>(models)[i]).fit(),
    decreases models.len(),
{
    let read = |tree: Tree| T::of_tree(tree);
    if models.len() == 0 {
        assert(trees::<T>(models) =~= Seq::empty());
        assert(models =~= Seq::empty());
    } else {
        let front = models.drop_last();
        lemma_entities_round_trip::<T>(front);
        T::lemma_round_trip(models.last());
        assert(trees::<T>(models).drop_last() =~= trees::<T>(front));
        assert(trees::<T>(models).last() == T::tree_of(models.last()));
        assert(front.push(models.last()) =~= models);
        assert forall|i: int| 0 <= i < models.len() implies (#[trigger] trees::<T>(models)[i]).fit() by {
            if i < front.len() {
                assert(trees::<T>(models)[i] == trees::<T>(front)[i]);
            }
        }
    }
}

/// Lays entities out as a list, which is left out where there are none.
pub fn write_each<T: Entity>(items: &Vec<T>) -> (d: Option<Datum>)
    ensures
        opt_view(d) == list_tree(trees::<T>(models(items@))),
{
    if items.len() == 0 {
        return None;
    }
    let mut out: Vec<Datum> = Vec::new();
    let mut i: usize = 0;
    while i < items.len()
        invariant
            i <= items.len(),
            out.len() == i,
            forall|j: int| 0 <= j < i ==> (#[trigger] out@[j])@ == T::tree_of(items@[j].model()),
        decreases items.len() - i,
    {
        out.push(items[i].to_datum());
        i += 1;
    }
    assert(list_view(out@) =~= trees::<T>(models(items@)));
    Some(Datum::List(out))
}

/// Reads entities out of the items of a list that may have been left out.
///
/// # Errors
/// The failure of the first item that is read as no entity.
pub fn read_each<T: Entity>(items: Option<&Vec<Datum>>) -> (r: Result<Vec<T>, CorporeumError>)
    ensures
        match r {
            Ok(out) => entities::<T>(items_view(items)) matches Ok(m) && m == models(out@),
            Err(e) => entities::<T>(items_view(items)) matches Err(f) && f == e@,
        },
{
    let mut out: Vec<T> = Vec::new();
    let ghost read = |tree: Tree| T::of_tree(tree);
    match items {
        None => {
            assert(models(out@) =~= Seq::empty());
        },
        Some(list) => {
            let ghost all = list_view(list@);
            let mut i: usize = 0;
            assert(all.take(0) =~= Seq::empty());
            assert(models(out@) =~= Seq::empty());
            while i < list.len()
                invariant
                    i <= list.len(),
                    items == Some(list),
                    all == list_view(list@),
                    read == |tree: Tree| T::of_tree(tree),
                    each(all.take(i as int), read) matches Ok(m) && m == models(out@),
                decreases list.len() - i,
            {
                proof {
                    assert(all.take(i + 1).drop_last() =~= all.take(i as int));
                    assert(all.take(i + 1).last() == list@[i as int]@);
                }
                let ghost before = models(out@);
                match T::from_datum(&list[i]) {
                    Ok(entity) => {
                        out.push(entity);
                        assert(models(out@) =~= before.push(entity.model()));
                    },
                    Err(e) => {
                        proof {
                            lemma_each_fails(all, read, i + 1);
                        }
                        return Err(e);
                    },
                }
                i += 1;
            }
            assert(all.take(list.len() as int) =~= all);
        },
    }
    Ok(out)
}

/// How an optional integer is written: left out where there is none.
pub fn opt_int_datum(n: Option<i64>) -> (d: Option<Datum>)
    ensures
        opt_view(d) == opt_int_tree(n),
{
    match n {
        Some(n) => Some(Datum::Integer(n)),
        None => None,
    }
}

/// The record that metadata is written as.
pub open spec fn metadata_tree(m: MetadataView) -> Tree {
    let f = Seq::<(Tree, Tree)>::empty();
    let f = with_field(f, "authors"@, list_tree(trees::<Author>(m.authors)));
    let f = with_field(f, "created"@, opt_int_tree(m.created));
    let f = with_field(f, "description"@, opt_text_tree(m.description));
    let f = with_field(f, "modified"@, opt_int_tree(m.modified));
    let f = with_field(f, "name"@, Some(Tree::Text(m.name)));
    let f = with_field(f, "version"@, Some(Tree::Int(m.version as int)));
    Tree::Dict(f)
}

/// The metadata that a tree is read as. Metadata that names an author twice is refused.
pub open spec fn tree_metadata(tree: Tree) -> Result<MetadataView, ErrorView> {
    let items = opt_list(tree, "authors"@);
    let authors = entities::<Author>(items->Ok_0);
    let created = opt_int(tree, "created"@, i64::MIN as int, i64::MAX as int);
    let description = opt_text(tree, "description"@);
    let modified = opt_int(tree, "modified"@, i64::MIN as int, i64::MAX as int);
    let name = need_text(tree, "name"@);
    let version = need_int(tree, "version"@, 0, u16::MAX as int);
    if !(tree is Dict) {
        Err(invalid("metadata"@))
    } else if items is Err {
        Err(items->Err_0)
    } else if authors is Err {
        Err(authors->Err_0)
    } else if !distinct_authors(authors->Ok_0) {
        Err(invalid("authors"@))
    } else if created is Err {
        Err(created->Err_0)
    } else if description is Err {
        Err(description->Err_0)
    } else if modified is Err {
        Err(modified->Err_0)
    } else if name is Err {
        Err(name->Err_0)
    } else if version is Err {
        Err(version->Err_0)
    } else {
        Ok(
            MetadataView {
                authors: authors->Ok_0,
                created: match created->Ok_0 {
                    Some(n) => Some(n as i64),
                    None => None,
                },
                description: description->Ok_0,
                modified: match modified->Ok_0 {
                    Some(n) => Some(n as i64),
                    None => None,
                },
                name: name->Ok_0,
                version: version->Ok_0 as u16,
            },
        )
    }
}

/// Metadata that names no author twice and was written as a tree is read back as it was,
/// and the tree is one that the codecs take.
pub proof fn lemma_metadata_round_trip(m: MetadataView)
    ensures
        m.wf() ==> tree_metadata(metadata_tree(m)) == Ok::<MetadataView, ErrorView>(m),
        metadata_tree(m).fit(),
{
    reveal_strlit("authors");
    reveal_strlit("created");
    reveal_strlit("description");
    reveal_strlit("modified");
    reveal_strlit("name");
    reveal_strlit("version");
    assert("authors"@[0] == 'a' && "created"@[0] == 'c' && "version"@[0] == 'v');
    lemma_entities_round_trip::<Author>(m.authors);
    let authors = list_tree(trees::<Author>(m.authors));
    if m.authors.len() > 0 {
        lemma_fit_list(trees::<Author>(m.authors));
    } else {
        assert(m.authors =~= Seq::empty());
    }
    let f0 = Seq::<(Tree, Tree)>::empty();
    let f1 = with_field(f0, "authors"@, authors);
    let f2 = with_field(f1, "created"@, opt_int_tree(m.created));
    let f3 = with_field(f2, "description"@, opt_text_tree(m.description));
    let f4 = with_field(f3, "modified"@, opt_int_tree(m.modified));
    let f5 = with_field(f4, "name"@, Some(Tree::Text(m.name)));
    let f6 = with_field(f5, "version"@, Some(Tree::Int(m.version as int)));
    lemma_with_field(f0, "authors"@, authors);
    lemma_with_field(f1, "created"@, opt_int_tree(m.created));
    lemma_with_field(f2, "description"@, opt_text_tree(m.description));
    lemma_with_field(f3, "modified"@, opt_int_tree(m.modified));
    lemma_with_field(f4, "name"@, Some(Tree::Text(m.name)));
    lemma_with_field(f5, "version"@, Some(Tree::Int(m.version as int)));
    lemma_fit_with_field(f0, "authors"@, authors);
    lemma_fit_with_field(f1, "created"@, opt_int_tree(m.created));
    lemma_fit_with_field(f2, "description"@, opt_text_tree(m.description));
    lemma_fit_with_field(f3, "modified"@, opt_int_tree(m.modified));
    lemma_fit_with_field(f4, "name"@, Some(Tree::Text(m.name)));
    lemma_fit_with_field(f5, "version"@, Some(Tree::Int(m.version as int)));
    lemma_fit_dict(f6);
    let tree = metadata_tree(m);
    assert(tree == Tree::Dict(f6));
    assert(tree.field("authors"@) == authors);
    assert(tree.field("created"@) == opt_int_tree(m.created));
    assert(tree.field("description"@) == opt_text_tree(m.description));
    assert(tree.field("modified"@) == opt_int_tree(m.modified));
    assert(tree.field("name"@) == Some(Tree::Text(m.name)));
    assert(tree.field("version"@) == Some(Tree::Int(m.version as int)));
}

/// Lays metadata out as a tree.
pub fn metadata_datum(meta: &Metadata) -> (d: Datum)
    ensures
        d@ == metadata_tree(meta@),
{
    let mut fields: Vec<(String, Datum)> = Vec::new();
    assert(fields_view(fields@) =~= Seq::empty());
    let authors = meta.authors();
    assert(models(authors@) =~= meta@.authors);
    put(&mut fields, "authors", write_each(authors));
    put(&mut fields, "created", opt_int_datum(meta.created()));
    put(&mut fields, "description", opt_text_datum(meta.description()));
    put(&mut fields, "modified", opt_int_datum(meta.modified()));
    put(&mut fields, "name", Some(Datum::Text(meta.corpus_name().to_owned())));
    put(&mut fields, "version", Some(Datum::Integer(meta.version() as i64)));
    Datum::Record(fields)
}

/// Reads metadata out of a tree.
///
/// # Errors
/// A semantic error if the tree is no record, lacks `name` or `version`, holds in a field
/// what does not belong there, or names an author twice.
pub fn metadata_of(d: &Datum) -> (r: Result<Metadata, CorporeumError>)
    ensures
        match r {
            Ok(meta) => tree_metadata(d@) matches Ok(m) && m == meta@ && meta@.wf(),
            Err(e) => tree_metadata(d@) matches Err(f) && f == e@,
        },
{
    if !d.is_record() {
        return Err(invalid_error("metadata"));
    }
    let items = read_list(d, "authors")?;
    let authors = read_each::<Author>(items)?;
    assert(views(authors@) =~= models(authors@));
    if !names_distinct(&authors) {
        return Err(invalid_error("authors"));
    }
    let created = read_opt_int(d, "created", i64::MIN, i64::MAX)?;
    let description = read_opt_text(d, "description")?;
    let modified = read_opt_int(d, "modified", i64::MIN, i64::MAX)?;
    let name = read_text(d, "name")?;
    let version = read_int(d, "version", 0, u16::MAX as i64)?;
    Ok(Metadata::from_parts(authors, created, description, modified, name, version as u16))
}

/// How optional metadata is written: left out where there is none.
pub open spec fn opt_metadata_tree(m: Option<MetadataView>) -> Option<Tree> {
    match m {
        Some(m) => Some(metadata_tree(m)),
        None => None,
    }
}

/// The metadata that the record `tree` may hold in the field `metadata`.
pub open spec fn opt_metadata(tree: Tree) -> Result<Option<MetadataView>, ErrorView> {
    match tree.field("metadata"@) {
        None | Some(Tree::Null) => Ok(None),
        Some(m) => match tree_metadata(m) {
            Ok(m) => Ok(Some(m)),
            Err(e) => Err(e),
        },
    }
}

/// The record that a corpus is written as.
pub open spec fn corpus_tree(c: CorpusView) -> Tree {
    let f = Seq::<(Tree, Tree)>::empty();
    let f = with_field(f, "metadata"@, opt_metadata_tree(c.metadata));
    let f = with_field(f, "documents"@, list_tree(trees::<Document>(c.documents)));
    Tree::Dict(f)
}

/// The corpus that a tree is read as.
pub open spec fn tree_corpus(tree: Tree) -> Result<CorpusView, ErrorView> {
    let metadata = opt_metadata(tree);
    let items = opt_list(tree, "documents"@);
    let documents = entities::<Document>(items->Ok_0);
    if !(tree is Dict) {
        Err(invalid("corpus"@))
    } else if metadata is Err {
        Err(metadata->Err_0)
    } else if items is Err {
        Err(items->Err_0)
    } else if documents is Err {
        Err(documents->Err_0)
    } else {
        Ok(CorpusView { metadata: metadata->Ok_0, documents: documents->Ok_0 })
    }
}

/// A corpus whose metadata names no author twice and that was written as a tree is read
/// back as it was; and the tree of any corpus is one that the codecs take.
pub proof fn lemma_corpus_round_trip(c: CorpusView)
    ensures
        c.wf() ==> tree_corpus(corpus_tree(c)) == Ok::<CorpusView, ErrorView>(c),
        corpus_tree(c).fit(),
{
    reveal_strlit("metadata");
    reveal_strlit("documents");
    lemma_entities_round_trip::<Document>(c.documents);
    let documents = list_tree(trees::<Document>(c.documents));
    let metadata = opt_metadata_tree(c.metadata);
    if c.documents.len() > 0 {
        lemma_fit_list(trees::<Document>(c.documents));
    } else {
        assert(c.documents =~= Seq::empty());
    }
    if c.metadata is Some {
        lemma_metadata_round_trip(c.metadata->Some_0);
    }
    let f0 = Seq::<(Tree, Tree)>::empty();
    let f1 = with_field(f0, "metadata"@, metadata);
    let f2 = with_field(f1, "documents"@, documents);
    lemma_with_field(f0, "metadata"@, metadata);
    lemma_with_field(f1, "documents"@, documents);
    lemma_fit_with_field(f0, "metadata"@, metadata);
    lemma_fit_with_field(f1, "documents"@, documents);
    lemma_fit_dict(f2);
    let tree = corpus_tree(c);
    assert(tree == Tree::Dict(f2));
    assert(tree.field("metadata"@) == metadata);
    assert(tree.field("documents"@) == documents);
}

/// Lays a corpus out as a tree.
pub fn corpus_datum(corpus: &Corpus) -> (d: Datum)
    ensures
        d@ == corpus_tree(corpus@),
{
    let mut fields: Vec<(String, Datum)> = Vec::new();
    assert(fields_view(fields@) =~= Seq::empty());
    let documents = corpus.get_docs();
    assert(models(documents@) =~= corpus@.documents);
    let metadata = match corpus.get_metadata() {
        Some(meta) => Some(metadata_datum(meta)),
        None => None,
    };
    put(&mut fields, "metadata", metadata);
    put(&mut fields, "documents", write_each(documents));
    Datum::Record(fields)
}

/// Reads a corpus out of a tree.
///
/// # Errors
/// A semantic error if the tree is no record or one of the records in it lacks a field
/// that it must have, holds in a field what does not belong there, or names an author
/// twice.
pub fn corpus_of(d: &Datum) -> (r: Result<Corpus, CorporeumError>)
    ensures
        match r {
            Ok(corpus) => tree_corpus(d@) matches Ok(c) && c == corpus@ && corpus@.wf(),
            Err(e) => tree_corpus(d@) matches Err(f) && f == e@,
        },
{
    if !d.is_record() {
        return Err(invalid_error("corpus"));
    }
    let metadata = match d.field("metadata") {
        None => None,
        Some(Datum::Null) => None,
        Some(m) => Some(metadata_of(m)?),
    };
    let items = read_list(d, "documents")?;
    let documents = read_each::<Document>(items)?;
    assert(views(documents@) =~= models(documents@));
    Ok(Corpus::from_parts(metadata, documents))
}

} // verus!
