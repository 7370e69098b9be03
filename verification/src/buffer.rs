//! Strided passes over a buffer of integers, one cache line apart, for
//! measuring memory bandwidth.

use vstd::prelude::*;

verus! {

/// How many integers of eight bytes fill a cache line of sixty-four.
pub const STRIDE: usize = 8;

/// The sum of the first number of each of the first `lines` cache lines of
/// `buffer`.
pub open spec fn line_sum(buffer: Seq<i64>, lines: nat) -> int
    decreases lines,
{
    if lines == 0 {
        0
    } else {
        line_sum(buffer, (lines - 1) as nat) + buffer[8 * (lines - 1)]
    }
}

/// The number of cache lines that `len` numbers begin.
pub open spec fn lines_of(len: nat) -> nat {
    (len + 7) / 8
}

/// Whether every partial sum of the pass over `buffer` fits in an `i64`.
pub open spec fn sums_fit(buffer: Seq<i64>) -> bool {
    forall|lines: nat|
        lines <= lines_of(buffer.len()) ==> i64::MIN <= #[trigger] line_sum(buffer, lines)
            <= i64::MAX
}

/// One random number, by `gen` of `rand::Rng` on the thread's generator.
/// Nothing can be said of the number.
#[verifier::external_body]
fn random_i64() -> i64 {
    rand::Rng::gen(&mut rand::thread_rng())
}

/// Reads one number of every cache line and adds them up. No partial sum may
/// leave the range of `i64`.
pub fn read(buffer: &[i64]) -> (sum: i64)
    requires
        sums_fit(buffer@),
        buffer@.len() <= usize::MAX - 8,
    ensures
        sum == line_sum(buffer@, lines_of(buffer@.len())),
{
    let mut sum: i64 = 0;
    let mut i: usize = 0;
    let ghost mut lines: nat = 0;
    while i < buffer.len()
        invariant
            i == 8 * lines,
            i < buffer@.len() + 8,
            buffer@.len() <= usize::MAX - 8,
            sums_fit(buffer@),
            sum == line_sum(buffer@, lines),
        decreases buffer@.len() + 8 - i,
    {
        assert(lines + 1 <= lines_of(buffer@.len()));
        assert(i64::MIN <= line_sum(buffer@, lines + 1) <= i64::MAX);
        sum = sum + buffer[i];
        i = i + STRIDE;
        proof {
            lines = lines + 1;
        }
    }
    sum
}

/// Writes a zero into one number of every cache line, and leaves the others
/// as they are.
pub fn write(buffer: &mut [i64])
    requires
        old(buffer)@.len() <= usize::MAX - 8,
    ensures
        final(buffer)@.len() == old(buffer)@.len(),
        forall|i: int|
            0 <= i < old(buffer)@.len() ==> #[trigger] final(buffer)@[i] == if i % 8 == 0 {
                0
            } else {
                old(buffer)@[i]
            },
{
    let n = buffer.len();
    let mut i: usize = 0;
    while i < n
        invariant
            i % 8 == 0,
            i < n + 8,
            n <= usize::MAX - 8,
            n == buffer@.len(),
            n == old(buffer)@.len(),
            forall|k: int|
                0 <= k < n ==> #[trigger] buffer@[k] == if k % 8 == 0 && k < i {
                    0
                } else {
                    old(buffer)@[k]
                },
        decreases n + 8 - i,
    {
        buffer[i] = 0;
        i = i + STRIDE;
    }
}

/// A buffer of `size` bytes, filled with random numbers of eight bytes each.
pub fn make_buffer(size: usize) -> (buffer: Vec<i64>)
    ensures
        buffer@.len() == size / 8,
{
    let mut buffer: Vec<i64> = Vec::new();
    let mut i: usize = 0;
    while i < size / 8
        invariant
            i <= size / 8,
            buffer@.len() == i,
        decreases size / 8 - i,
    {
        buffer.push(random_i64());
        i = i + 1;
    }
    buffer
}

} // verus!
