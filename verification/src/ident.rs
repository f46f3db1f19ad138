//! How a parent numbers and finds its children.
//!
//! Every child carries an integer id that its parent allots: one more than
//! the greatest id among the children already attached, or 0 when there is
//! none. An id is a handle, not a position: removing a child renumbers
//! nothing, and lookup always scans for the first child that bears the id.

use vstd::prelude::*;

verus! {

/// An entity that its parent tells apart by an integer id.
pub trait Identified: Sized {
    /// The id, as contracts speak of it.
    spec fn ident(&self) -> u32;

    /// The id of this entity.
    fn id(&self) -> (id: u32)
        ensures
            id == self.ident(),
    ;
}

/// The ids of `items`, in order.
pub open spec fn idents<T: Identified>(items: Seq<T>) -> Seq<u32> {
    Seq::new(items.len(), |i: int| items[i].ident())
}

/// The greatest of `ids`, or -1 where there is none.
pub open spec fn max_id(ids: Seq<u32>) -> int
    decreases ids.len(),
{
    if ids.len() == 0 {
        -1
    } else if ids.last() > max_id(ids.drop_last()) {
        ids.last() as int
    } else {
        max_id(ids.drop_last())
    }
}

/// The id that a parent allots to its next child when its children bear `ids`.
pub open spec fn next_id(ids: Seq<u32>) -> int {
    max_id(ids) + 1
}

/// `i` is the first place of `ids` that holds `id`.
pub open spec fn first_at(ids: Seq<u32>, id: u32, i: int) -> bool {
    &&& 0 <= i < ids.len()
    &&& ids[i] == id
    &&& forall|j: int| 0 <= j < i ==> ids[j] != id
}

/// The first place of `ids` that holds `id`, if any does.
pub open spec fn position(ids: Seq<u32>, id: u32) -> Option<int> {
    if exists|i: int| first_at(ids, id, i) {
        Some(choose|i: int| first_at(ids, id, i))
    } else {
        None
    }
}

/// `id` stands exactly once in `ids`.
pub open spec fn occurs_once(ids: Seq<u32>, id: u32) -> bool {
    exists|i: int|
        0 <= i < ids.len() && #[trigger] ids[i] == id && forall|j: int|
            0 <= j < ids.len() && j != i ==> ids[j] != id
}

/// Each of `ids` is the one that a parent holding those before it allots.
pub open spec fn allotted_in_turn(ids: Seq<u32>) -> bool {
    forall|k: int| 0 <= k < ids.len() ==> #[trigger] ids[k] == next_id(ids.take(k))
}

/// No id is greater than `max_id`, and `max_id` is one of the ids unless there is none.
pub proof fn lemma_max_id_bounds(ids: Seq<u32>)
    ensures
        -1 <= max_id(ids) <= u32::MAX,
        forall|i: int| 0 <= i < ids.len() ==> ids[i] <= max_id(ids),
        ids.len() > 0 ==> exists|i: int| 0 <= i < ids.len() && ids[i] == max_id(ids),
        ids.len() == 0 ==> max_id(ids) == -1,
    decreases ids.len(),
{
    if ids.len() > 0 {
        let front = ids.drop_last();
        lemma_max_id_bounds(front);
        assert forall|i: int| 0 <= i < ids.len() implies ids[i] <= max_id(ids) by {
            if i < front.len() {
                assert(front[i] == ids[i]);
            }
        }
        if ids.last() > max_id(front) {
            assert(ids[ids.len() - 1] == max_id(ids));
        } else {
            let i = choose|i: int| 0 <= i < front.len() && front[i] == max_id(front);
            assert(ids[i] == max_id(ids));
        }
    }
}

/// The id allotted next is greater than every id there is, so none of the children bears it.
pub proof fn lemma_next_id_is_fresh(ids: Seq<u32>)
    ensures
        0 <= next_id(ids) <= u32::MAX + 1,
        forall|i: int| 0 <= i < ids.len() ==> ids[i] < next_id(ids),
        next_id(ids) <= u32::MAX ==> !ids.contains(next_id(ids) as u32),
{
    lemma_max_id_bounds(ids);
}

/// Where `i` is the first place that holds `id`, `position` finds it.
pub proof fn lemma_position_found(ids: Seq<u32>, id: u32, i: int)
    requires
        first_at(ids, id, i),
    ensures
        position(ids, id) == Some(i),
{
    let j = choose|j: int| first_at(ids, id, j);
    assert(first_at(ids, id, j));
    if j < i {
        assert(ids[j] != id);
    } else if i < j {
        assert(ids[i] != id);
    }
}

/// `position` finds nothing exactly when no place holds `id`; what it finds is the first such place.
pub proof fn lemma_position(ids: Seq<u32>, id: u32)
    ensures
        position(ids, id) is None <==> !ids.contains(id),
        position(ids, id) matches Some(i) ==> first_at(ids, id, i),
{
    if ids.contains(id) {
        let k = choose|k: int| 0 <= k < ids.len() && ids[k] == id;
        lemma_first_exists(ids, id, k);
    } else {
        if exists|i: int| first_at(ids, id, i) {
            let i = choose|i: int| first_at(ids, id, i);
            assert(ids[i] == id);
        }
    }
}

proof fn lemma_first_exists(ids: Seq<u32>, id: u32, k: int)
    requires
        0 <= k < ids.len(),
        ids[k] == id,
    ensures
        exists|i: int| first_at(ids, id, i),
    decreases k,
{
    if exists|j: int| 0 <= j < k && ids[j] == id {
        let j = choose|j: int| 0 <= j < k && ids[j] == id;
        lemma_first_exists(ids, id, j);
    } else {
        assert(first_at(ids, id, k));
    }
}

/// After `n` children were attached in turn, each with the id allotted to it
/// when it was created and none removed, the ids are exactly `0, 1, .., n - 1`.
pub proof fn lemma_ids_allotted_in_turn(ids: Seq<u32>)
    requires
        allotted_in_turn(ids),
    ensures
        forall|k: int| 0 <= k < ids.len() ==> ids[k] == k,
        ids.to_set() =~= Set::new(|id: u32| id < ids.len()),
        ids.no_duplicates(),
        next_id(ids) == ids.len(),
    decreases ids.len(),
{
    if ids.len() > 0 {
        let front = ids.drop_last();
        assert forall|k: int| 0 <= k < front.len() implies #[trigger] front[k] == next_id(
            front.take(k),
        ) by {
            assert(front.take(k) =~= ids.take(k));
            assert(front[k] == ids[k]);
        }
        lemma_ids_allotted_in_turn(front);
        assert(ids.take(ids.len() - 1) =~= front);
        assert(ids[ids.len() - 1] == next_id(front));
        assert forall|k: int| 0 <= k < ids.len() implies ids[k] == k by {
            if k < front.len() {
                assert(front[k] == ids[k]);
            }
        }
        assert(max_id(ids) == ids.len() - 1);
    }
    assert forall|id: u32| ids.to_set().contains(id) <==> id < ids.len() by {
        if id < ids.len() {
            assert(ids[id as int] == id);
        }
    }
}

/// Removing the child found under an id that stands once leaves no child with that id.
pub proof fn lemma_removed_id_is_gone(ids: Seq<u32>, id: u32)
    requires
        occurs_once(ids, id),
    ensures
        position(ids, id) is Some,
        position(ids.remove(position(ids, id).unwrap()), id) is None,
{
    let i = choose|i: int|
        0 <= i < ids.len() && #[trigger] ids[i] == id && forall|j: int|
            0 <= j < ids.len() && j != i ==> ids[j] != id;
    assert(first_at(ids, id, i));
    lemma_position_found(ids, id, i);
    let rest = ids.remove(i);
    lemma_position(rest, id);
    if rest.contains(id) {
        let k = choose|k: int| 0 <= k < rest.len() && rest[k] == id;
        if k < i {
            assert(rest[k] == ids[k]);
        } else {
            assert(rest[k] == ids[k + 1]);
        }
    }
}

/// The id for the next child of a parent that holds `items`.
pub fn next_free<T: Identified>(items: &Vec<T>) -> (id: u32)
    requires
        next_id(idents(items@)) <= u32::MAX,
    ensures
        id == next_id(idents(items@)),
{
    let ghost ids = idents(items@);
    let mut greatest: Option<u32> = None;
    let mut i: usize = 0;
    while i < items.len()
        invariant
            i <= items.len(),
            ids == idents(items@),
            match greatest {
                Some(g) => g == max_id(ids.take(i as int)),
                None => max_id(ids.take(i as int)) == -1,
            },
        decreases items.len() - i,
    {
        let id = items[i].id();
        proof {
            assert(ids.take(i + 1).drop_last() =~= ids.take(i as int));
            assert(ids.take(i + 1).last() == id);
        }
        greatest =
        match greatest {
            Some(g) => if id > g {
                Some(id)
            } else {
                Some(g)
            },
            None => Some(id),
        };
        i += 1;
    }
    proof {
        assert(ids.take(items.len() as int) =~= ids);
    }
    match greatest {
        Some(g) => g + 1,
        None => 0,
    }
}

/// The place of the first of `items` that bears `id`.
pub fn find<T: Identified>(items: &Vec<T>, id: u32) -> (place: Option<usize>)
    ensures
        match place {
            Some(i) => position(idents(items@), id) == Some(i as int),
            None => position(idents(items@), id) is None,
        },
{
    let ghost ids = idents(items@);
    let mut i: usize = 0;
    while i < items.len()
        invariant
            i <= items.len(),
            ids == idents(items@),
            forall|j: int| 0 <= j < i ==> ids[j] != id,
        decreases items.len() - i,
    {
        if items[i].id() == id {
            proof {
                lemma_position_found(ids, id, i as int);
            }
            return Some(i);
        }
        i += 1;
    }
    proof {
        lemma_position(ids, id);
    }
    None
}

} // verus!
