//! The people who made a corpus.

use crate::model::Alike;
use crate::text::{as_text, same_opt_text, same_text, str_text_of, text_of};
use vstd::prelude::*;

verus! {

/// Represents an author of a corpus.
///
/// To add an `Author` to the [`Metadata`](crate::metadata::Metadata) of a corpus, use
/// [`add_author()`](crate::metadata::Metadata::add_author).
#[derive(Debug)]
pub struct Author {
    first_name: String,
    last_name: String,
    mail: Option<String>,
}

/// What an author record holds, as mathematical values.
pub struct AuthorView {
    pub first_name: Seq<char>,
    pub last_name: Seq<char>,
    pub mail: Option<Seq<char>>,
}

impl AuthorView {
    /// The author goes by this first and last name.
    pub open spec fn is_named(self, first_name: Seq<char>, last_name: Seq<char>) -> bool {
        self.first_name == first_name && self.last_name == last_name
    }
}

impl View for Author {
    type V = AuthorView;

    closed spec fn view(&self) -> AuthorView {
        AuthorView {
            first_name: self.first_name@,
            last_name: self.last_name@,
            mail: text_of(self.mail),
        }
    }
}

impl Alike for Author {
    fn alike(&self, other: &Self) -> (same: bool) {
        same_text(self.first_name.as_str(), other.first_name.as_str()) && same_text(
            self.last_name.as_str(),
            other.last_name.as_str(),
        ) && same_opt_text(&self.mail, &other.mail)
    }
}

impl PartialEq for Author {
    fn eq(&self, other: &Self) -> (same: bool) {
        self.alike(other)
    }
}

impl vstd::std_specs::cmp::PartialEqSpecImpl for Author {
    open spec fn obeys_eq_spec() -> bool {
        true
    }

    open spec fn eq_spec(&self, other: &Self) -> bool {
        self@ == other@
    }
}

impl Eq for Author {

}

impl Author {
    /// An author record with the given names and, if there is one, mail address.
    pub fn new(first_name: &str, last_name: &str, mail: Option<&str>) -> (author: Self)
        ensures
            author@ == (AuthorView {
                first_name: first_name@,
                last_name: last_name@,
                mail: str_text_of(mail),
            }),
    {
        Self {
            first_name: first_name.to_owned(),
            last_name: last_name.to_owned(),
            mail: match mail {
                Some(m) => Some(m.to_owned()),
                None => None,
            },
        }
    }

    /// An author record made of the given parts, none of them looked at.
    pub(crate) fn from_parts(first_name: String, last_name: String, mail: Option<String>) -> (author:
        Self)
        ensures
            author@ == (AuthorView {
                first_name: first_name@,
                last_name: last_name@,
                mail: text_of(mail),
            }),
    {
        Self { first_name, last_name, mail }
    }

    /// The first name of this author.
    pub fn first_name(&self) -> (name: &str)
        ensures
            name@ == self@.first_name,
    {
        self.first_name.as_str()
    }

    /// The last name of this author.
    pub fn last_name(&self) -> (name: &str)
        ensures
            name@ == self@.last_name,
    {
        self.last_name.as_str()
    }

    /// The mail address of this author, if one is recorded.
    pub fn mail(&self) -> (mail: Option<&str>)
        ensures
            str_text_of(mail) == self@.mail,
    {
        as_text(&self.mail)
    }

    /// Tells whether this author goes by the given first and last name.
    pub fn is_named(&self, first_name: &str, last_name: &str) -> (named: bool)
        ensures
            named == self@.is_named(first_name@, last_name@),
    {
        same_text(self.first_name.as_str(), first_name) && same_text(
            self.last_name.as_str(),
            last_name,
        )
    }
}

} // verus!
