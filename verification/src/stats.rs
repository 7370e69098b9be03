//! Median and mode of a list of integers.

use vstd::prelude::*;
use vstd::relations::{sorted_by, total_ordering};
use vstd::seq_lib::lemma_sorted_unique;
use vstd::slice::slice_to_vec;

verus! {

/// The order of the integers, as a relation.
pub open spec fn at_most() -> spec_fn(i32, i32) -> bool {
    |x: i32, y: i32| x <= y
}

/// The numbers of `nums` in ascending order.
pub open spec fn ascending(nums: Seq<i32>) -> Seq<i32> {
    nums.sort_by(at_most())
}

/// How often `x` occurs among the first `upto` numbers of `nums`.
pub open spec fn occurrences(nums: Seq<i32>, x: i32, upto: int) -> nat
    decreases upto,
{
    if upto <= 0 {
        0
    } else {
        occurrences(nums, x, upto - 1) + if nums[upto - 1] == x {
            1nat
        } else {
            0nat
        }
    }
}

/// `sort` of std on slices, which sorts the slice in ascending order: the
/// vector holds the same numbers as before, as often, each at most the one
/// behind it.
#[verifier::external_body]
fn sort_numbers(nums: &mut Vec<i32>)
    ensures
        final(nums)@.to_multiset() == old(nums)@.to_multiset(),
        sorted_by(final(nums)@, at_most()),
{
    nums.sort();
}

/// The median of a list that is not empty: the middle of the numbers in
/// ascending order, and of two numbers in the middle the lower.
pub fn median(nums: &[i32]) -> (median: i32)
    requires
        nums@.len() > 0,
    ensures
        median == ascending(nums@)[(nums@.len() - 1) / 2],
{
    let mut sorted = slice_to_vec(nums);
    sort_numbers(&mut sorted);
    proof {
        assert(total_ordering(at_most()));
        nums@.lemma_sort_by_ensures(at_most());
        lemma_sorted_unique(sorted@, ascending(nums@), at_most());
        sorted@.to_multiset_ensures();
        nums@.to_multiset_ensures();
    }
    sorted[(sorted.len() - 1) / 2]
}

/// How often `x` occurs in `nums`.
pub fn count_of(nums: &[i32], x: i32) -> (count: usize)
    ensures
        count == occurrences(nums@, x, nums@.len() as int),
{
    let mut count: usize = 0;
    let mut i: usize = 0;
    while i < nums.len()
        invariant
            i <= nums@.len(),
            count <= i,
            count == occurrences(nums@, x, i as int),
        decreases nums@.len() - i,
    {
        if nums[i] == x {
            count = count + 1;
        }
        i = i + 1;
    }
    count
}

/// A mode of a list that is not empty: a number of the list that occurs at
/// least as often as every other. Where several numbers occur most often, the
/// result is one of them.
pub fn mode(nums: &[i32]) -> (mode: i32)
    requires
        nums@.len() > 0,
    ensures
        nums@.contains(mode),
        forall|i: int|
            0 <= i < nums@.len() ==> occurrences(nums@, #[trigger] nums@[i], nums@.len() as int)
                <= occurrences(nums@, mode, nums@.len() as int),
{
    let mut mode = nums[0];
    let mut most = count_of(nums, mode);
    let mut i: usize = 1;
    while i < nums.len()
        invariant
            1 <= i <= nums@.len(),
            nums@.contains(mode),
            most == occurrences(nums@, mode, nums@.len() as int),
            forall|k: int|
                0 <= k < i ==> occurrences(nums@, #[trigger] nums@[k], nums@.len() as int)
                    <= most,
        decreases nums@.len() - i,
    {
        let count = count_of(nums, nums[i]);
        if count > most {
            mode = nums[i];
            most = count;
        }
        i = i + 1;
    }
    mode
}

} // verus!
