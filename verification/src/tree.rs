//! The trees that a corpus is turned into before it is written out, and
//! that it is read back from: integers, texts, lists and records, with
//! nothing of a byte format in them.

use crate::error::{CorporeumError, ErrorView};
use crate::text::same_text;
use vstd::prelude::*;

verus! {

/// What a codec can hold, as a mathematical value.
pub enum Tree {
    Null,
    Bool(bool),
    Int(int),
    Text(Seq<char>),
    List(Seq<Tree>),
    /// Keys with their values, in the order in which they are written.
    Dict(Seq<(Tree, Tree)>),
    /// What some codec can hold and no corpus is made of: a fraction, raw bytes, a tag.
    Other,
}

/// A tree as the library builds and reads it.
#[derive(Debug)]
pub enum Datum {
    Null,
    Bool(bool),
    Integer(i64),
    Text(String),
    List(Vec<Datum>),
    /// Named fields, in the order in which they are written.
    Record(Vec<(String, Datum)>),
}

/// One level of a tree that a codec holds, with what lies below it still in the
/// codec's own form `V`, and keys in the form `K`.
pub enum Shape<'a, K, V> {
    Null,
    Bool(bool),
    Integer(i64),
    Text(&'a str),
    List(&'a Vec<V>),
    Dict(Vec<(&'a K, &'a V)>),
    /// What no corpus is made of: a fraction, an integer beyond 64 bits, raw bytes, a tag.
    Other,
}

/// The trees of `items`, in order.
pub open spec fn list_view(items: Seq<Datum>) -> Seq<Tree>
    decreases items, 0nat,
{
    Seq::new(
        items.len(),
        |i: int|
            if 0 <= i < items.len() {
                items[i]@
            } else {
                Tree::Null
            },
    )
}

/// The named fields of `fields` as keys with their values, in order.
pub open spec fn fields_view(fields: Seq<(String, Datum)>) -> Seq<(Tree, Tree)>
    decreases fields, 0nat,
{
    Seq::new(
        fields.len(),
        |i: int|
            if 0 <= i < fields.len() {
                (Tree::Text(fields[i].0@), fields[i].1@)
            } else {
                (Tree::Null, Tree::Null)
            },
    )
}

impl View for Datum {
    type V = Tree;

    open spec fn view(&self) -> Tree
        decreases self, 1nat,
    {
        match self {
            Datum::Null => Tree::Null,
            Datum::Bool(b) => Tree::Bool(*b),
            Datum::Integer(n) => Tree::Int(*n as int),
            Datum::Text(s) => Tree::Text(s@),
            Datum::List(items) => Tree::List(list_view(items@)),
            Datum::Record(fields) => Tree::Dict(fields_view(fields@)),
        }
    }
}

/// The value that stands under the key `name` in `fields`: the first one, if there are several.
pub open spec fn lookup(fields: Seq<(Tree, Tree)>, name: Seq<char>) -> Option<Tree>
    decreases fields.len(),
{
    if fields.len() == 0 {
        None
    } else if lookup(fields.drop_last(), name) is Some {
        lookup(fields.drop_last(), name)
    } else if fields.last().0 == Tree::Text(name) {
        Some(fields.last().1)
    } else {
        None
    }
}

/// `fields` with `value`, where there is one, written behind them under the key `name`.
pub open spec fn with_field(fields: Seq<(Tree, Tree)>, name: Seq<char>, value: Option<Tree>) -> Seq<
    (Tree, Tree),
> {
    match value {
        Some(v) => fields.push((Tree::Text(name), v)),
        None => fields,
    }
}

/// No key stands twice in `fields`.
pub open spec fn distinct_keys(fields: Seq<(Tree, Tree)>) -> bool {
    forall|i: int, j: int|
        0 <= i < fields.len() && 0 <= j < fields.len() && i != j ==> (#[trigger] fields[i]).0 != (
        #[trigger] fields[j]).0
}

impl Tree {
    /// The value of the field `name`, where this tree is a record that has one.
    pub open spec fn field(self, name: Seq<char>) -> Option<Tree> {
        match self {
            Tree::Dict(fields) => lookup(fields, name),
            _ => None,
        }
    }

    /// The tree is made of what a corpus is made of: integers of 64 bits, truth values,
    /// texts, lists, and records whose keys are texts.
    pub open spec fn plain(self) -> bool
        decreases self,
    {
        match self {
            Tree::Null | Tree::Bool(_) | Tree::Text(_) => true,
            Tree::Int(n) => i64::MIN <= n <= i64::MAX,
            Tree::List(items) => forall|i: int| 0 <= i < items.len() ==> (#[trigger] items[i]).plain(),
            Tree::Dict(fields) => forall|i: int|
                0 <= i < fields.len() ==> (#[trigger] fields[i]).0 is Text && fields[i].1.plain(),
            Tree::Other => false,
        }
    }

    /// No record in the tree holds a key twice.
    pub open spec fn keyed(self) -> bool
        decreases self,
    {
        match self {
            Tree::List(items) => forall|i: int| 0 <= i < items.len() ==> (#[trigger] items[i]).keyed(),
            Tree::Dict(fields) => distinct_keys(fields) && forall|i: int|
                0 <= i < fields.len() ==> (#[trigger] fields[i]).1.keyed(),
            _ => true,
        }
    }
}

/// The error for a tree that holds something that no corpus is made of.
pub open spec fn unfit() -> ErrorView {
    ErrorView::FailedToParseSemantic(None, "value of a kind that no corpus holds"@)
}

/// The error for a tree that holds something that no corpus is made of.
pub fn unfit_error() -> (e: CorporeumError)
    ensures
        e@ == unfit(),
{
    CorporeumError::FailedToParseSemantic(None, "value of a kind that no corpus holds".to_owned())
}

impl Tree {
    /// The tree is plain and holds no key twice in a record: what the codecs ask of a
    /// tree to write it.
    pub open spec fn fit(self) -> bool {
        self.plain() && self.keyed()
    }
}

/// The fields make up a record of fit values under distinct names.
pub open spec fn fit_fields(fields: Seq<(Tree, Tree)>) -> bool {
    &&& distinct_keys(fields)
    &&& forall|i: int| 0 <= i < fields.len() ==> (#[trigger] fields[i]).0 is Text && fields[i].1.fit()
}

/// What was found among the first fields is what is found among all of them.
pub proof fn lemma_lookup_extends(fields: Seq<(Tree, Tree)>, name: Seq<char>, n: int)
    requires
        0 <= n <= fields.len(),
        lookup(fields.take(n), name) is Some,
    ensures
        lookup(fields, name) == lookup(fields.take(n), name),
    decreases fields.len() - n,
{
    if n < fields.len() {
        assert(fields.take(n + 1).drop_last() =~= fields.take(n));
        lemma_lookup_extends(fields, name, n + 1);
    } else {
        assert(fields.take(n) =~= fields);
    }
}

/// A field written behind the others is found under its own name unless that name was
/// taken already; what stood under any name before still does.
pub proof fn lemma_lookup_with_field(
    fields: Seq<(Tree, Tree)>,
    name: Seq<char>,
    value: Option<Tree>,
    asked: Seq<char>,
)
    ensures
        lookup(with_field(fields, name, value), asked) == if lookup(fields, asked) is Some {
            lookup(fields, asked)
        } else if asked == name {
            value
        } else {
            None
        },
{
    if value is Some {
        assert(with_field(fields, name, value).drop_last() =~= fields);
    }
}

/// What is found under each name once a field was written behind the others.
pub proof fn lemma_with_field(fields: Seq<(Tree, Tree)>, name: Seq<char>, value: Option<Tree>)
    ensures
        forall|asked: Seq<char>| #[trigger]
            lookup(with_field(fields, name, value), asked) == if lookup(fields, asked) is Some {
                lookup(fields, asked)
            } else if asked == name {
                value
            } else {
                None
            },
{
    assert forall|asked: Seq<char>| #[trigger]
        lookup(with_field(fields, name, value), asked) == if lookup(fields, asked) is Some {
            lookup(fields, asked)
        } else if asked == name {
            value
        } else {
            None
        } by {
        lemma_lookup_with_field(fields, name, value, asked);
    }
}

/// A name under which nothing is found is no key of the record.
pub proof fn lemma_lookup_none(fields: Seq<(Tree, Tree)>, name: Seq<char>)
    requires
        lookup(fields, name) is None,
    ensures
        forall|i: int| 0 <= i < fields.len() ==> (#[trigger] fields[i]).0 != Tree::Text(name),
    decreases fields.len(),
{
    if fields.len() > 0 {
        lemma_lookup_none(fields.drop_last(), name);
        assert forall|i: int| 0 <= i < fields.len() implies (#[trigger] fields[i]).0 != Tree::Text(
            name,
        ) by {
            if i < fields.len() - 1 {
                assert(fields.drop_last()[i] == fields[i]);
            }
        }
    }
}

/// A field written under a name that was free keeps the keys distinct.
pub proof fn lemma_distinct_with_field(
    fields: Seq<(Tree, Tree)>,
    name: Seq<char>,
    value: Option<Tree>,
)
    requires
        distinct_keys(fields),
        lookup(fields, name) is None,
    ensures
        distinct_keys(with_field(fields, name, value)),
{
    lemma_lookup_none(fields, name);
}

impl Datum {
    /// Tells whether this is a record.
    pub fn is_record(&self) -> (record: bool)
        ensures
            record == (self@ is Dict),
    {
        match self {
            Datum::Record(_) => true,
            _ => false,
        }
    }

    /// The value of the field `name`, where this is a record that has one;
    /// the first one, if it has several.
    pub fn field(&self, name: &str) -> (value: Option<&Datum>)
        ensures
            match value {
                Some(v) => self@.field(name@) == Some(v@),
                None => self@.field(name@) is None,
            },
    {
        match self {
            Datum::Record(fields) => {
                let ghost all = fields_view(fields@);
                let mut i: usize = 0;
                assert(all.take(0) =~= Seq::empty());
                while i < fields.len()
                    invariant
                        i <= fields.len(),
                        all == fields_view(fields@),
                        self@ == Tree::Dict(all),
                        lookup(all.take(i as int), name@) is None,
                    decreases fields.len() - i,
                {
                    proof {
                        assert(all.take(i + 1).drop_last() =~= all.take(i as int));
                    }
                    if same_text(fields[i].0.as_str(), name) {
                        proof {
                            assert(all.take(i + 1).last() == all[i as int]);
                            assert(all[i as int] == (Tree::Text(fields@[i as int].0@), fields@[i as int].1@));
                            assert(lookup(all.take(i + 1), name@) == Some(fields@[i as int].1@));
                            lemma_lookup_extends(all, name@, i + 1);
                        }
                        return Some(&fields[i].1);
                    }
                    i += 1;
                }
                assert(all.take(fields.len() as int) =~= all);
                None
            },
            _ => None,
        }
    }
}

/// What `plain` and `keyed` ask of a list is what they ask of each of its items.
pub proof fn lemma_list_parts(items: Seq<Tree>)
    ensures
        Tree::List(items).plain() <==> forall|i: int|
            0 <= i < items.len() ==> (#[trigger] items[i]).plain(),
        Tree::List(items).keyed() <==> forall|i: int|
            0 <= i < items.len() ==> (#[trigger] items[i]).keyed(),
{
    let list = Tree::List(items);
    assert(list->List_0 == items);
    assert(decreases_to!(list => list->List_0));
    assert forall|i: int| 0 <= i < items.len() implies decreases_to!(list => #[trigger] items[i]) by {
        assert(decreases_to!(items => items[i]));
    }
}

/// What `plain` and `keyed` ask of a record is what they ask of each of its fields.
pub proof fn lemma_dict_parts(fields: Seq<(Tree, Tree)>)
    ensures
        Tree::Dict(fields).plain() <==> forall|i: int|
            0 <= i < fields.len() ==> (#[trigger] fields[i]).0 is Text && fields[i].1.plain(),
        Tree::Dict(fields).keyed() <==> distinct_keys(fields) && forall|i: int|
            0 <= i < fields.len() ==> (#[trigger] fields[i]).1.keyed(),
{
    let dict = Tree::Dict(fields);
    assert(dict->Dict_0 == fields);
    assert(decreases_to!(dict => dict->Dict_0));
    assert forall|i: int| 0 <= i < fields.len() implies decreases_to!(dict => (#[trigger] fields[i]).1) by {
        assert(decreases_to!(fields => fields[i]));
        assert(decreases_to!(fields[i] => fields[i].1));
    }
}

/// A fit value written under a name that was free leaves the fields fit.
pub proof fn lemma_fit_with_field(fields: Seq<(Tree, Tree)>, name: Seq<char>, value: Option<Tree>)
    requires
        fit_fields(fields),
        lookup(fields, name) is None,
        value matches Some(v) ==> v.fit(),
    ensures
        fit_fields(with_field(fields, name, value)),
{
    lemma_distinct_with_field(fields, name, value);
}

/// Fit fields make a fit record.
pub proof fn lemma_fit_dict(fields: Seq<(Tree, Tree)>)
    requires
        fit_fields(fields),
    ensures
        Tree::Dict(fields).fit(),
{
    lemma_dict_parts(fields);
}

/// Fit items make a fit list.
pub proof fn lemma_fit_list(items: Seq<Tree>)
    requires
        forall|i: int| 0 <= i < items.len() ==> (#[trigger] items[i]).fit(),
    ensures
        Tree::List(items).fit(),
{
    lemma_list_parts(items);
}

/// Tells whether two trees hold the same.
pub fn same_datum(a: &Datum, b: &Datum) -> (same: bool)
    ensures
        same == (a@ == b@),
    decreases a,
{
    match (a, b) {
        (Datum::Null, Datum::Null) => true,
        (Datum::Bool(x), Datum::Bool(y)) => *x == *y,
        (Datum::Integer(x), Datum::Integer(y)) => *x == *y,
        (Datum::Text(x), Datum::Text(y)) => same_text(x.as_str(), y.as_str()),
        (Datum::List(x), Datum::List(y)) => {
            if x.len() != y.len() {
                assert(list_view(x@).len() != list_view(y@).len());
                return false;
            }
            let mut i: usize = 0;
            while i < x.len()
                invariant
                    i <= x.len(),
                    x.len() == y.len(),
                    a == Datum::List(*x),
                    b == Datum::List(*y),
                    forall|j: int| 0 <= j < i ==> x@[j]@ == y@[j]@,
                decreases x.len() - i,
            {
                assert(decreases_to!(a => a->List_0));
                assert(decreases_to!(x => x@));
                assert(decreases_to!(x@ => x@[i as int]));
                if !same_datum(&x[i], &y[i]) {
                    assert(list_view(x@)[i as int] != list_view(y@)[i as int]);
                    return false;
                }
                i += 1;
            }
            assert(list_view(x@) =~= list_view(y@));
            true
        },
        (Datum::Record(x), Datum::Record(y)) => {
            if x.len() != y.len() {
                assert(fields_view(x@).len() != fields_view(y@).len());
                return false;
            }
            let mut i: usize = 0;
            while i < x.len()
                invariant
                    i <= x.len(),
                    x.len() == y.len(),
                    a == Datum::Record(*x),
                    b == Datum::Record(*y),
                    forall|j: int| 0 <= j < i ==> x@[j].0@ == y@[j].0@ && x@[j].1@ == y@[j].1@,
                decreases x.len() - i,
            {
                assert(decreases_to!(a => a->Record_0));
                assert(decreases_to!(x => x@));
                assert(decreases_to!(x@ => x@[i as int]));
                assert(decreases_to!(x@[i as int] => x@[i as int].1));
                if !same_text(x[i].0.as_str(), y[i].0.as_str()) || !same_datum(&x[i].1, &y[i].1) {
                    assert(fields_view(x@)[i as int] != fields_view(y@)[i as int]);
                    return false;
                }
                i += 1;
            }
            assert(fields_view(x@) =~= fields_view(y@));
            true
        },
        _ => false,
    }
}

/// What the library builds and reads is plain.
pub proof fn lemma_datum_is_plain(datum: Datum)
    ensures
        datum@.plain(),
    decreases datum,
{
    match datum {
        Datum::List(items) => {
            assert forall|i: int| 0 <= i < list_view(items@).len() implies (
            #[trigger] list_view(items@)[i]).plain() by {
                lemma_datum_is_plain(items@[i]);
            }
            lemma_list_parts(list_view(items@));
        },
        Datum::Record(fields) => {
            assert forall|i: int| 0 <= i < fields_view(fields@).len() implies (
            #[trigger] fields_view(fields@)[i]).0 is Text && fields_view(fields@)[i].1.plain() by {
                lemma_datum_is_plain(fields@[i].1);
            }
            lemma_dict_parts(fields_view(fields@));
        },
        _ => {},
    }
}

} // verus!
