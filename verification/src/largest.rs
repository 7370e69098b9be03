//! The largest item of a list, found in one pass, three ways: by copying, by
//! cloning and by reference.

use vstd::prelude::*;
use vstd::std_specs::cmp::{PartialOrdIs, PartialOrdSpec};

verus! {

/// Whether `>` on `T` means what the type's specification of its order says.
pub open spec fn ordered<T: PartialOrd>() -> bool {
    T::obeys_partial_cmp_spec()
}

/// The position that one pass over the first `upto` items of `list` settles
/// on: the pass starts with the first item and moves on to a later item
/// whenever that is greater than the one it holds.
pub open spec fn largest_at<T: PartialOrd>(list: Seq<T>, upto: int) -> int
    decreases upto,
{
    if upto <= 1 {
        0
    } else {
        let held = largest_at(list, upto - 1);
        if list[upto - 1].is_gt(&list[held]) {
            upto - 1
        } else {
            held
        }
    }
}

/// The pass settles on a position of the list.
pub proof fn lemma_largest_at_in_range<T: PartialOrd>(list: Seq<T>, upto: int)
    requires
        0 < upto <= list.len(),
    ensures
        0 <= largest_at(list, upto) < upto,
    decreases upto,
{
    if upto > 1 {
        lemma_largest_at_in_range(list, upto - 1);
    }
}

/// On integers the pass finds the maximum, and of several equal maxima the
/// first.
pub proof fn lemma_largest_of_integers(list: Seq<i32>, upto: int)
    requires
        0 < upto <= list.len(),
    ensures
        forall|i: int| 0 <= i < upto ==> #[trigger] list[i] <= list[largest_at(list, upto)],
        forall|i: int|
            0 <= i < largest_at(list, upto) ==> #[trigger] list[i] < list[largest_at(list, upto)],
    decreases upto,
{
    if upto > 1 {
        lemma_largest_of_integers(list, upto - 1);
        lemma_largest_at_in_range(list, upto - 1);
    }
}

/// The largest item of a list that is not empty, copied out.
pub fn largest_copy<T: PartialOrd + Copy>(list: &[T]) -> (largest: T)
    requires
        list@.len() > 0,
        ordered::<T>(),
    ensures
        largest == list@[largest_at(list@, list@.len() as int)],
{
    let mut largest = list[0];
    let mut i: usize = 0;
    let ghost mut held: int = 0;
    while i < list.len()
        invariant
            ordered::<T>(),
            0 <= i <= list@.len(),
            list@.len() > 0,
            held == largest_at(list@, i as int),
            0 <= held < list@.len(),
            largest == list@[held],
        decreases list@.len() - i,
    {
        let item = list[i];
        if item > largest {
            largest = item;
            proof {
                held = i as int;
            }
        }
        i = i + 1;
    }
    largest
}

/// The largest item of a list that is not empty, cloned.
pub fn largest_clone<T: PartialOrd + Clone>(list: &[T]) -> (largest: T)
    requires
        list@.len() > 0,
        ordered::<T>(),
    ensures
        cloned(list@[largest_at(list@, list@.len() as int)], largest),
{
    let found = largest(list);
    found.clone()
}

/// The largest item of a list that is not empty, by reference.
pub fn largest<T: PartialOrd>(list: &[T]) -> (largest: &T)
    requires
        list@.len() > 0,
        ordered::<T>(),
    ensures
        *largest == list@[largest_at(list@, list@.len() as int)],
{
    let mut largest = &list[0];
    let mut i: usize = 0;
    let ghost mut held: int = 0;
    while i < list.len()
        invariant
            ordered::<T>(),
            0 <= i <= list@.len(),
            list@.len() > 0,
            held == largest_at(list@, i as int),
            0 <= held < list@.len(),
            *largest == list@[held],
        decreases list@.len() - i,
    {
        let item = &list[i];
        if item > largest {
            largest = item;
            proof {
                held = i as int;
            }
        }
        i = i + 1;
    }
    largest
}

} // verus!
