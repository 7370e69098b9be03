//! Tiny functions with simple calling conventions, handy when stepping through
//! generated code in a debugger.

use vstd::prelude::*;

verus! {

/// Does nothing.
pub fn noop_call() {
}

/// Sum of two integers. The sum must fit in an `i32`.
pub fn adds_two_ints(a: i32, b: i32) -> (sum: i32)
    requires
        i32::MIN <= a + b <= i32::MAX,
    ensures
        sum == a + b,
{
    a + b
}

/// Whether `lo <= x <= hi` for the bounds of `i32`.
pub open spec fn fits_i32(x: int) -> bool {
    i32::MIN <= x <= i32::MAX
}

/// Sum of eight integers, added pairwise: `(a + b) + (c + d) + (e + f) + (g + h)`.
/// Every partial sum of that grouping must fit in an `i32`.
pub fn adds_many_ints(a: i32, b: i32, c: i32, d: i32, e: i32, f: i32, g: i32, h: i32) -> (sum: i32)
    requires
        fits_i32(a + b),
        fits_i32(c + d),
        fits_i32(e + f),
        fits_i32(g + h),
        fits_i32((a + b) + (c + d)),
        fits_i32((a + b) + (c + d) + (e + f)),
        fits_i32((a + b) + (c + d) + (e + f) + (g + h)),
    ensures
        sum == a + b + c + d + e + f + g + h,
{
    (a + b) + (c + d) + (e + f) + (g + h)
}

/// Calls both sums once, on small numbers.
pub fn additions() -> (sums: (i32, i32))
    ensures
        sums == (3i32, 36i32),
{
    (adds_two_ints(1, 2), adds_many_ints(1, 2, 3, 4, 5, 6, 7, 8))
}

/// Accepts every answer but 42, on which the caller is expected to give up.
pub fn panics_on_42(answer: i32)
    requires
        answer != 42,
{
}

} // verus!
