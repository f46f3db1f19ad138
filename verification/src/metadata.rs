//! What is recorded of a corpus as a whole: its name, version and authors.

use crate::author::{Author, AuthorView};
use crate::error::{CorporeumError, ErrorView};
use crate::model::{Alike, all_alike, views};
use crate::text::{as_text, join3, same_opt_text, same_text, str_text_of, text_of};
use vstd::prelude::*;

verus! {

/// Represents the metadata contents in a text corpus.
///
/// To add metadata to a [`Corpus`](crate::corpus::Corpus), use
/// [`add_metadata()`](crate::corpus::Corpus::add_metadata).
#[derive(Debug)]
pub struct Metadata {
    authors: Vec<Author>,
    // seconds since the Unix epoch
    created: Option<i64>,
    description: Option<String>,
    modified: Option<i64>,
    name: String,
    // this does not follow semantic versioning, it is just a number
    version: u16,
}

/// What the metadata of a corpus holds, as mathematical values.
#[verifier::ext_equal]
pub struct MetadataView {
    pub authors: Seq<AuthorView>,
    pub created: Option<i64>,
    pub description: Option<Seq<char>>,
    pub modified: Option<i64>,
    pub name: Seq<char>,
    pub version: u16,
}

/// One of `authors` goes by the given first and last name.
pub open spec fn has_author(
    authors: Seq<AuthorView>,
    first_name: Seq<char>,
    last_name: Seq<char>,
) -> bool {
    exists|i: int| 0 <= i < authors.len() && #[trigger] authors[i].is_named(first_name, last_name)
}

/// `i` is the first place of `authors` that holds an author of the given first and last name.
pub open spec fn named_first_at(
    authors: Seq<AuthorView>,
    first_name: Seq<char>,
    last_name: Seq<char>,
    i: int,
) -> bool {
    &&& 0 <= i < authors.len()
    &&& authors[i].is_named(first_name, last_name)
    &&& forall|j: int| 0 <= j < i ==> !#[trigger] authors[j].is_named(first_name, last_name)
}

/// No two of `authors` go by the same first and last name.
pub open spec fn distinct_authors(authors: Seq<AuthorView>) -> bool {
    forall|i: int, j: int|
        0 <= i < authors.len() && 0 <= j < authors.len() && i != j ==> !#[trigger] authors[i].is_named(
            #[trigger] authors[j].first_name,
            authors[j].last_name,
        )
}

/// What a search by name asks for: a first name, a last name, or both.
/// An author answers it who bears one of the names asked for.
pub open spec fn answers(
    author: AuthorView,
    first_name: Option<Seq<char>>,
    last_name: Option<Seq<char>>,
) -> bool {
    ||| first_name == Some(author.first_name)
    ||| last_name == Some(author.last_name)
}

/// The text that tells a caller an author of that name is already recorded.
pub open spec fn duplicate_author_text(first_name: Seq<char>, last_name: Seq<char>) -> Seq<char> {
    "Author "@ + first_name + " "@ + last_name + " is already recorded"@
}

impl MetadataView {
    /// The metadata of a corpus that was just given its name.
    pub open spec fn named(name: Seq<char>) -> MetadataView {
        MetadataView {
            authors: Seq::empty(),
            created: None,
            description: None,
            modified: None,
            name,
            version: 1,
        }
    }

    /// No two authors go by the same first and last name.
    pub open spec fn wf(self) -> bool {
        distinct_authors(self.authors)
    }
}

impl View for Metadata {
    type V = MetadataView;

    closed spec fn view(&self) -> MetadataView {
        MetadataView {
            authors: views(self.authors@),
            created: self.created,
            description: text_of(self.description),
            modified: self.modified,
            name: self.name@,
            version: self.version,
        }
    }
}

impl Alike for Metadata {
    fn alike(&self, other: &Self) -> (same: bool) {
        self.version == other.version && self.created == other.created && self.modified
            == other.modified && same_text(self.name.as_str(), other.name.as_str())
            && same_opt_text(&self.description, &other.description) && all_alike(
            &self.authors,
            &other.authors,
        )
    }
}

impl PartialEq for Metadata {
    fn eq(&self, other: &Self) -> (same: bool) {
        self.alike(other)
    }
}

impl vstd::std_specs::cmp::PartialEqSpecImpl for Metadata {
    open spec fn obeys_eq_spec() -> bool {
        true
    }

    open spec fn eq_spec(&self, other: &Self) -> bool {
        self@ == other@
    }
}

impl Eq for Metadata {

}

/// Tells whether no two of `authors` go by the same first and last name.
pub fn names_distinct(authors: &Vec<Author>) -> (distinct: bool)
    ensures
        distinct == distinct_authors(views(authors@)),
{
    let ghost all = views(authors@);
    let mut i: usize = 0;
    while i < authors.len()
        invariant
            i <= authors.len(),
            all == views(authors@),
            forall|a: int, b: int|
                0 <= a < i && 0 <= b < a ==> !#[trigger] all[a].is_named(
                    #[trigger] all[b].first_name,
                    all[b].last_name,
                ),
        decreases authors.len() - i,
    {
        let mut j: usize = 0;
        while j < i
            invariant
                j <= i,
                i < authors.len(),
                all == views(authors@),
                forall|b: int|
                    0 <= b < j ==> !all[i as int].is_named(
                        (#[trigger] all[b]).first_name,
                        all[b].last_name,
                    ),
            decreases i - j,
        {
            if authors[i].is_named(authors[j].first_name(), authors[j].last_name()) {
                assert(all[i as int].is_named(all[j as int].first_name, all[j as int].last_name));
                return false;
            }
            j += 1;
        }
        i += 1;
    }
    assert forall|a: int, b: int|
        0 <= a < all.len() && 0 <= b < all.len() && a != b implies !#[trigger] all[a].is_named(
        #[trigger] all[b].first_name,
        all[b].last_name,
    ) by {
        if b < a {
        } else {
            assert(!all[b].is_named(all[a].first_name, all[a].last_name));
        }
    }
    true
}

impl Metadata {
    /// The metadata of a corpus of the given name: version 1, no authors.
    pub(crate) fn new(name: &str) -> (meta: Self)
        ensures
            meta@ == MetadataView::named(name@),
    {
        let meta = Self {
            authors: Vec::new(),
            created: None,
            description: None,
            modified: None,
            name: name.to_owned(),
            version: 1,
        };
        assert(meta@.authors =~= Seq::empty());
        meta
    }

    /// Metadata made of the given parts, none of them looked at.
    pub(crate) fn from_parts(
        authors: Vec<Author>,
        created: Option<i64>,
        description: Option<String>,
        modified: Option<i64>,
        name: String,
        version: u16,
    ) -> (meta: Self)
        ensures
            meta@ == (MetadataView {
                authors: views(authors@),
                created,
                description: text_of(description),
                modified,
                name: name@,
                version,
            }),
    {
        Self { authors, created, description, modified, name, version }
    }

    /// Returns the corpus name.
    pub fn corpus_name(&self) -> (name: &str)
        ensures
            name@ == self@.name,
    {
        self.name.as_str()
    }

    /// Sets the corpus name to the specified value.
    pub fn set_corpus_name(&mut self, name: &str)
        ensures
            final(self)@ == (MetadataView { name: name@, ..old(self)@ }),
    {
        self.name = name.to_owned();
    }

    /// Returns a reference to the list of authors of this metadata.
    pub fn authors(&self) -> (authors: &Vec<Author>)
        ensures
            views(authors@) == self@.authors,
    {
        &self.authors
    }

    /// Adds a new author to this metadata, unless one of the same first and last name
    /// is there already.
    ///
    /// # Errors
    /// This will return an error, and change nothing, if an author of that name is recorded.
    pub fn add_author(&mut self, first_name: &str, last_name: &str, mail: Option<&str>) -> (r:
        Result<(), CorporeumError>)
        ensures
            match r {
                Ok(()) => {
                    &&& !has_author(old(self)@.authors, first_name@, last_name@)
                    &&& final(self)@ == (MetadataView {
                        authors: old(self)@.authors.push(
                            AuthorView {
                                first_name: first_name@,
                                last_name: last_name@,
                                mail: str_text_of(mail),
                            },
                        ),
                        ..old(self)@
                    })
                },
                Err(e) => {
                    &&& has_author(old(self)@.authors, first_name@, last_name@)
                    &&& e@ == ErrorView::DuplicateElement(
                        duplicate_author_text(first_name@, last_name@),
                    )
                    &&& *final(self) == *old(self)
                },
            },
            old(self)@.wf() ==> final(self)@.wf(),
    {
        if self.author(first_name, last_name).is_some() {
            let head = join3("Author ", first_name, " ");
            let text = join3(head.as_str(), last_name, " is already recorded");
            assert(text@ =~= duplicate_author_text(first_name@, last_name@));
            return Err(CorporeumError::DuplicateElement(text));
        }
        let author = Author::new(first_name, last_name, mail);
        self.authors.push(author);
        assert(self@.authors =~= old(self)@.authors.push(author@));
        Ok(())
    }

    /// Removes the author, or authors, of the given first and last name.
    /// Those that remain keep their order.
    pub fn remove_author(&mut self, first_name: &str, last_name: &str)
        ensures
            final(self)@ == (MetadataView {
                authors: old(self)@.authors.filter(
                    |a: AuthorView| !a.is_named(first_name@, last_name@),
                ),
                ..old(self)@
            }),
            !has_author(final(self)@.authors, first_name@, last_name@),
            old(self)@.wf() ==> final(self)@.wf(),
    {
        let ghost before = self@.authors;
        let ghost stays = |a: AuthorView| !a.is_named(first_name@, last_name@);
        let ghost mut seen: int = 0;
        let mut i: usize = 0;
        proof {
            assert(before.take(0) =~= Seq::empty());
            assert(before.skip(0) =~= before);
            assert(before.take(0).filter(stays) =~= Seq::empty()) by {
                reveal(Seq::filter);
            }
        }
        while i < self.authors.len()
            invariant
                0 <= seen <= before.len(),
                i <= self.authors.len(),
                before == old(self)@.authors,
                stays == |a: AuthorView| !a.is_named(first_name@, last_name@),
                self@ == (MetadataView { authors: self@.authors, ..old(self)@ }),
                self@.authors =~= before.take(seen).filter(stays) + before.skip(seen),
                i == before.take(seen).filter(stays).len(),
                distinct_authors(before) ==> distinct_authors(self@.authors),
            decreases self.authors.len() - i,
        {
            proof {
                assert(self@.authors[i as int] == before.skip(seen)[0]);
                assert(before.take(seen + 1) =~= before.take(seen).push(before[seen]));
                assert(before.skip(seen).skip(1) =~= before.skip(seen + 1));
                before.take(seen).lemma_filter_push(before[seen], stays);
            }
            let ghost current = self@.authors;
            if self.authors[i].is_named(first_name, last_name) {
                self.authors.remove(i);
                proof {
                    assert(self@.authors =~= current.remove(i as int));
                    assert forall|x: int, y: int|
                        0 <= x < self@.authors.len() && 0 <= y < self@.authors.len() && x != y
                            && distinct_authors(before) implies !#[trigger] self@.authors[x].is_named(
                        #[trigger] self@.authors[y].first_name,
                        self@.authors[y].last_name,
                    ) by {
                        let px = if x < i { x } else { x + 1 };
                        let py = if y < i { y } else { y + 1 };
                        assert(self@.authors[x] == current[px]);
                        assert(self@.authors[y] == current[py]);
                    }
                }
            } else {
                i += 1;
            }
            proof {
                seen = seen + 1;
            }
        }
        proof {
            assert(seen == before.len()) by {
                if seen < before.len() {
                    assert(self@.authors.len() == i + before.skip(seen).len());
                }
            }
            assert(before.take(seen) =~= before);
            assert(before.skip(seen) =~= Seq::empty());
            assert(self@.authors =~= before.filter(stays));
            assert forall|k: int| 0 <= k < self@.authors.len() implies !#[trigger] self@.authors[k].is_named(
                first_name@,
                last_name@,
            ) by {
                before.lemma_filter_pred(stays, k);
            }
        }
    }

    /// Find authors by their first or last name.
    /// A name that is `None` is not compared; with both `None` nobody is found.
    /// The authors found come in the order in which they are recorded.
    pub fn find_authors(&self, first_name: Option<&str>, last_name: Option<&str>) -> (found: Vec<
        &Author,
    >)
        ensures
            views(found@) == self@.authors.filter(
                |a: AuthorView| answers(a, str_text_of(first_name), str_text_of(last_name)),
            ),
    {
        let ghost all = self@.authors;
        let ghost asked = |a: AuthorView| answers(a, str_text_of(first_name), str_text_of(last_name));
        let mut found: Vec<&Author> = Vec::new();
        let mut i: usize = 0;
        proof {
            assert(all.take(0) =~= Seq::empty());
            assert(all.take(0).filter(asked) =~= Seq::empty()) by {
                reveal(Seq::filter);
            }
            assert(views(found@) =~= Seq::empty());
        }
        while i < self.authors.len()
            invariant
                i <= self.authors.len(),
                all == self@.authors,
                asked == |a: AuthorView| answers(a, str_text_of(first_name), str_text_of(last_name)),
                views(found@) == all.take(i as int).filter(asked),
            decreases self.authors.len() - i,
        {
            let author = &self.authors[i];
            let by_first = match first_name {
                Some(name) => same_text(name, author.first_name()),
                None => false,
            };
            let by_last = match last_name {
                Some(name) => same_text(name, author.last_name()),
                None => false,
            };
            proof {
                assert(all.take(i + 1) =~= all.take(i as int).push(all[i as int]));
                all.take(i as int).lemma_filter_push(all[i as int], asked);
            }
            let ghost before = views(found@);
            if by_first || by_last {
                found.push(author);
                assert(views(found@) =~= before.push(author@));
            }
            i += 1;
        }
        proof {
            assert(all.take(self.authors.len() as int) =~= all);
        }
        found
    }

    /// Looks for the first author with the specified first and last name
    /// and returns a reference to it if it exists.
    pub fn author(&self, first_name: &str, last_name: &str) -> (r: Option<&Author>)
        ensures
            match r {
                Some(a) => exists|i: int|
                    named_first_at(self@.authors, first_name@, last_name@, i) && a@
                        == self@.authors[i],
                None => !has_author(self@.authors, first_name@, last_name@),
            },
    {
        let mut i: usize = 0;
        while i < self.authors.len()
            invariant
                i <= self.authors.len(),
                forall|j: int| 0 <= j < i ==> !#[trigger] self@.authors[j].is_named(first_name@, last_name@),
            decreases self.authors.len() - i,
        {
            if self.authors[i].is_named(first_name, last_name) {
                assert(named_first_at(self@.authors, first_name@, last_name@, i as int));
                return Some(&self.authors[i]);
            }
            i += 1;
        }
        None
    }

    /// Returns the description of this metadata, if it has one.
    pub fn description(&self) -> (description: Option<&str>)
        ensures
            str_text_of(description) == self@.description,
    {
        as_text(&self.description)
    }

    /// Sets the description of this metadata.
    pub fn set_description(&mut self, desc: &str)
        ensures
            final(self)@ == (MetadataView { description: Some(desc@), ..old(self)@ }),
    {
        self.description = Some(desc.to_owned());
    }

    /// Returns the version of this metadata.
    pub fn version(&self) -> (version: u16)
        ensures
            version == self@.version,
    {
        self.version
    }

    /// When the corpus was created, in seconds since the Unix epoch, if that is recorded.
    pub fn created(&self) -> (created: Option<i64>)
        ensures
            created == self@.created,
    {
        self.created
    }

    /// When the corpus was last modified, in seconds since the Unix epoch, if that is recorded.
    pub fn modified(&self) -> (modified: Option<i64>)
        ensures
            modified == self@.modified,
    {
        self.modified
    }
}

} // verus!
