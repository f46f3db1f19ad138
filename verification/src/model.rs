//! What holds for every type that has a view: the views of a list of its
//! values, and telling two values alike by what they hold.

use vstd::prelude::*;

verus! {

/// The views of `items`, in order.
pub open spec fn views<T: View>(items: Seq<T>) -> Seq<T::V> {
    Seq::new(items.len(), |i: int| items[i]@)
}

/// A value that can be held against another of its kind: the two are alike where they
/// hold the same.
pub trait Alike: View + Sized {
    /// Tells whether this value holds the same as `other`.
    fn alike(&self, other: &Self) -> (same: bool)
        ensures
            same == (self@ == other@),
    ;
}

/// Tells whether `a` and `b` hold the same, item by item.
pub fn all_alike<T: Alike>(a: &Vec<T>, b: &Vec<T>) -> (same: bool)
    ensures
        same == (views(a@) == views(b@)),
{
    if a.len() != b.len() {
        assert(views(a@).len() != views(b@).len());
        return false;
    }
    let mut i: usize = 0;
    while i < a.len()
        invariant
            i <= a.len(),
            a.len() == b.len(),
            forall|j: int| 0 <= j < i ==> a@[j]@ == b@[j]@,
        decreases a.len() - i,
    {
        if !a[i].alike(&b[i]) {
            assert(views(a@)[i as int] != views(b@)[i as int]);
            return false;
        }
        i += 1;
    }
    assert(views(a@) =~= views(b@));
    true
}

} // verus!
