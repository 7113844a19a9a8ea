//! Finding the largest element of a slice, with and without generics.

use vstd::prelude::*;
use vstd::slice::slice_index_get;

verus! {

/// A type whose values sit on the number line, so that the largest value
/// of a slice is meaningful.
pub trait Ranked {
    /// The value's place on the number line.
    spec fn rank(&self) -> int;

    /// Whether `self` ranks strictly above `other`.
    fn ranks_above(&self, other: &Self) -> (b: bool)
        ensures
            b == (self.rank() > other.rank()),
    ;
}

impl Ranked for i32 {
    open spec fn rank(&self) -> int {
        *self as int
    }

    fn ranks_above(&self, other: &Self) -> (b: bool) {
        *self > *other
    }
}

impl Ranked for char {
    open spec fn rank(&self) -> int {
        (*self as u32) as int
    }

    fn ranks_above(&self, other: &Self) -> (b: bool) {
        (*self as u32) > (*other as u32)
    }
}

/// The largest element of a non-empty slice of machine integers.
pub fn largest_without_generics(list: &[i32]) -> (r: i32)
    requires
        list@.len() > 0,
    ensures
        exists|i: int| 0 <= i < list@.len() && r == list@[i],
        forall|i: int| 0 <= i < list@.len() ==> list@[i] <= r,
{
    let mut largest: i32 = *slice_index_get(list, 0);
    let mut idx: usize = 1;
    assert(largest == list@[0]);
    while idx < list.len()
        invariant
            1 <= idx <= list@.len(),
            exists|i: int| 0 <= i < list@.len() && largest == list@[i],
            forall|i: int| 0 <= i < idx ==> list@[i] <= largest,
        decreases list@.len() - idx,
    {
        let item: i32 = *slice_index_get(list, idx);
        if item > largest {
            largest = item;
            assert(largest == list@[idx as int]);
        }
        idx = idx + 1;
    }
    largest
}

/// The largest element of a non-empty slice, by rank.
pub fn largest<T: Ranked + Copy>(list: &[T]) -> (r: T)
    requires
        list@.len() > 0,
    ensures
        exists|i: int| 0 <= i < list@.len() && r == list@[i],
        forall|i: int| 0 <= i < list@.len() ==> list@[i].rank() <= r.rank(),
{
    let mut largest: T = *slice_index_get(list, 0);
    let mut idx: usize = 1;
    assert(largest == list@[0]);
    while idx < list.len()
        invariant
            1 <= idx <= list@.len(),
            exists|i: int| 0 <= i < list@.len() && largest == list@[i],
            forall|i: int| 0 <= i < idx ==> list@[i].rank() <= largest.rank(),
        decreases list@.len() - idx,
    {
        let item: T = *slice_index_get(list, idx);
        if item.ranks_above(&largest) {
            largest = item;
            assert(largest == list@[idx as int]);
        }
        idx = idx + 1;
    }
    largest
}

} // verus!
