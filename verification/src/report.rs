//! Expense reports: the entries that add up to 2020.

use vstd::prelude::*;

verus! {

/// The sum that is looked for.
pub const TARGET: u32 = 2020;

/// Whether the entries at `i` and `j` add up to the target.
pub open spec fn pair_at(nums: Seq<u16>, i: int, j: int) -> bool {
    0 <= i < nums.len() && 0 <= j < nums.len() && nums[i] + nums[j] == TARGET
}

/// Whether the entries at `i`, `j` and `k` add up to the target.
pub open spec fn triple_at(nums: Seq<u16>, i: int, j: int, k: int) -> bool {
    0 <= i < nums.len() && 0 <= j < nums.len() && 0 <= k < nums.len() && nums[i] + nums[j]
        + nums[k] == TARGET
}

/// The first two entries that add up to 2020, and their product. The pairs
/// are tried in the order of the first entry and then of the second, and an
/// entry may be paired with itself. Without such a pair there is no result.
pub fn find_pair(nums: &[u16]) -> (found: Option<(u16, u16, u32)>)
    ensures
        found is None ==> forall|i: int, j: int| !#[trigger] pair_at(nums@, i, j),
        found matches Some((x, y, product)) ==> {
            &&& product == x * y
            &&& exists|i: int, j: int|
                {
                    &&& #[trigger] pair_at(nums@, i, j)
                    &&& x == nums@[i]
                    &&& y == nums@[j]
                    &&& forall|a: int, b: int|
                        (a < i || (a == i && b < j)) ==> !#[trigger] pair_at(nums@, a, b)
                }
        },
{
    let n = nums.len();
    let mut i: usize = 0;
    while i < n
        invariant
            i <= n,
            n == nums@.len(),
            forall|a: int, b: int| a < i ==> !#[trigger] pair_at(nums@, a, b),
        decreases n - i,
    {
        let mut j: usize = 0;
        while j < n
            invariant
                i < n,
                j <= n,
                n == nums@.len(),
                forall|a: int, b: int|
                    (a < i || (a == i && b < j)) ==> !#[trigger] pair_at(nums@, a, b),
            decreases n - j,
        {
            let x = nums[i];
            let y = nums[j];
            if x as u32 + y as u32 == TARGET {
                assert(pair_at(nums@, i as int, j as int));
                assert(x * y <= u32::MAX) by (nonlinear_arith)
                    requires
                        0 <= x <= 0xffff,
                        0 <= y <= 0xffff,
                ;
                return Some((x, y, x as u32 * y as u32));
            }
            j = j + 1;
        }
        i = i + 1;
    }
    None
}

/// The first three entries that add up to 2020, and their product. The
/// triples are tried in the order of the first entry, then of the second,
/// then of the third, and an entry may be taken more than once. Without such
/// a triple there is no result.
pub fn find_triple(nums: &[u16]) -> (found: Option<(u16, u16, u16, u32)>)
    ensures
        found is None ==> forall|i: int, j: int, k: int| !#[trigger] triple_at(nums@, i, j, k),
        found matches Some((x, y, z, product)) ==> {
            &&& product == x * y * z
            &&& exists|i: int, j: int, k: int|
                {
                    &&& #[trigger] triple_at(nums@, i, j, k)
                    &&& x == nums@[i]
                    &&& y == nums@[j]
                    &&& z == nums@[k]
                    &&& forall|a: int, b: int, c: int|
                        (a < i || (a == i && b < j) || (a == i && b == j && c < k))
                            ==> !#[trigger] triple_at(nums@, a, b, c)
                }
        },
{
    let n = nums.len();
    let mut i: usize = 0;
    while i < n
        invariant
            i <= n,
            n == nums@.len(),
            forall|a: int, b: int, c: int| a < i ==> !#[trigger] triple_at(nums@, a, b, c),
        decreases n - i,
    {
        let mut j: usize = 0;
        while j < n
            invariant
                i < n,
                j <= n,
                n == nums@.len(),
                forall|a: int, b: int, c: int|
                    (a < i || (a == i && b < j)) ==> !#[trigger] triple_at(nums@, a, b, c),
            decreases n - j,
        {
            let mut k: usize = 0;
            while k < n
                invariant
                    i < n,
                    j < n,
                    k <= n,
                    n == nums@.len(),
                    forall|a: int, b: int, c: int|
                        (a < i || (a == i && b < j) || (a == i && b == j && c < k))
                            ==> !#[trigger] triple_at(nums@, a, b, c),
                decreases n - k,
            {
                let x = nums[i];
                let y = nums[j];
                let z = nums[k];
                if x as u32 + y as u32 + z as u32 == TARGET {
                    assert(triple_at(nums@, i as int, j as int, k as int));
                    assert(x * y <= 2020 * 2020 && x * y * z <= u32::MAX) by (nonlinear_arith)
                        requires
                            0 <= x <= 2020,
                            0 <= y <= 2020,
                            0 <= z <= 2020,
                            x + y + z == 2020,
                    ;
                    return Some((x, y, z, x as u32 * y as u32 * z as u32));
                }
                k = k + 1;
            }
            j = j + 1;
        }
        i = i + 1;
    }
    None
}

} // verus!
