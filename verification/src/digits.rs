//! Random decimal digits, plain and silly.

use vstd::prelude::*;

verus! {

/// `rand_chacha::ChaCha20Rng`, a random number generator: nothing is said of
/// its state.
#[verifier::external_type_specification]
#[verifier::external_body]
pub struct ExChaCha20Rng(rand_chacha::ChaCha20Rng);

/// A generator seeded from the system's entropy, by `from_entropy` of
/// `rand::SeedableRng`. Nothing is claimed of the generator.
#[verifier::external_body]
fn seeded() -> rand_chacha::ChaCha20Rng {
    rand::SeedableRng::from_entropy()
}

/// One random digit, drawn by `gen_range(0..10)` of `rand::Rng`, which
/// samples the range with its upper end left out: the result is below ten,
/// and which digit it is cannot be said.
#[verifier::external_body]
fn draw_digit(rng: &mut rand_chacha::ChaCha20Rng) -> (digit: u8)
    ensures
        digit < 10,
{
    rand::Rng::gen_range(rng, 0..10)
}

/// Whether two digits are neighbours or the same: they differ by one at most.
pub open spec fn close(a: u8, b: u8) -> bool {
    a - b <= 1 && b - a <= 1
}

/// Whether a list of digits is silly: no digit occurs twice, and no digit
/// stands next to a neighbour of its.
pub open spec fn silly(digits: Seq<u8>) -> bool {
    &&& forall|i: int| 0 <= i < digits.len() ==> #[trigger] digits[i] < 10
    &&& forall|i: int, j: int| 0 <= i < j < digits.len() ==> digits[i] != digits[j]
    &&& forall|i: int| 0 < i < digits.len() ==> !close(digits[i - 1], #[trigger] digits[i])
}

/// Whether `digit` may follow `digits`: always as the first, and after that
/// if it is new and no neighbour of the last.
pub open spec fn may_follow(digits: Seq<u8>, digit: u8) -> bool {
    digits.len() == 0 || (!digits.contains(digit) && !close(digits.last(), digit))
}

/// `num` random digits.
pub fn gen_digits(num: usize) -> (digits: Vec<u8>)
    ensures
        digits@.len() == num,
        forall|i: int| 0 <= i < num ==> #[trigger] digits@[i] < 10,
{
    let mut rng = seeded();
    let mut digits: Vec<u8> = Vec::new();
    let mut i: usize = 0;
    while i < num
        invariant
            i <= num,
            digits@.len() == i,
            forall|k: int| 0 <= k < i ==> #[trigger] digits@[k] < 10,
        decreases num - i,
    {
        let digit = draw_digit(&mut rng);
        digits.push(digit);
        i = i + 1;
    }
    digits
}

/// Whether `digit` may follow `digits` in a silly list.
pub fn accepts(digits: &Vec<u8>, digit: u8) -> (accepted: bool)
    ensures
        accepted == may_follow(digits@, digit),
{
    let n = digits.len();
    if n == 0 {
        return true;
    }
    let last = digits[n - 1];
    let near = if last >= digit {
        last - digit <= 1
    } else {
        digit - last <= 1
    };
    if near {
        return false;
    }
    let mut k: usize = 0;
    while k < n
        invariant
            k <= n,
            n == digits@.len(),
            forall|i: int| 0 <= i < k ==> digits@[i] != digit,
        decreases n - k,
    {
        if digits[k] == digit {
            assert(digits@.contains(digit));
            return false;
        }
        k = k + 1;
    }
    true
}

/// One turn of the making of a silly list: `digit`, as it was drawn, joins
/// the list if it may follow it, and is dropped otherwise. The result says
/// whether it joined. A silly list stays silly either way.
pub fn push_if_silly(digits: &mut Vec<u8>, digit: u8) -> (joined: bool)
    requires
        digit < 10,
    ensures
        joined == may_follow(old(digits)@, digit),
        final(digits)@ == if joined {
            old(digits)@.push(digit)
        } else {
            old(digits)@
        },
        silly(old(digits)@) ==> silly(final(digits)@),
{
    if accepts(digits, digit) {
        digits.push(digit);
        proof {
            let before = old(digits)@;
            if silly(before) {
                assert forall|i: int, j: int| 0 <= i < j < digits@.len() implies digits@[i]
                    != digits@[j] by {
                    if j == before.len() {
                        assert(before.contains(before[i]));
                    }
                }
            }
        }
        true
    } else {
        false
    }
}

/// The silly list made from the first `upto` of `draws`: each draw joins the
/// list if the list is short of `num` digits and the draw may follow it.
pub open spec fn made_from(num: nat, draws: Seq<u8>, upto: int) -> Seq<u8>
    decreases upto,
{
    if upto <= 0 {
        Seq::empty()
    } else {
        let before = made_from(num, draws, upto - 1);
        if before.len() < num && may_follow(before, draws[upto - 1]) {
            before.push(draws[upto - 1])
        } else {
            before
        }
    }
}

/// Once the list is full, further draws change nothing.
pub proof fn lemma_full_list_stays(num: nat, draws: Seq<u8>, from: int, upto: int)
    requires
        0 <= from <= upto,
        made_from(num, draws, from).len() >= num,
    ensures
        made_from(num, draws, upto) == made_from(num, draws, from),
    decreases upto - from,
{
    if from < upto {
        lemma_full_list_stays(num, draws, from, upto - 1);
    }
}

/// A list of up to `num` silly digits, made from `draws`, which were drawn at
/// random: the draws are tried in order, and a draw that may not follow the
/// list so far is dropped. The list is shorter than `num` only where the draws
/// ran out. More than eight digits are not asked for.
pub fn gen_silly_digits(num: usize, draws: &Vec<u8>) -> (digits: Vec<u8>)
    requires
        num <= 8,
        forall|i: int| 0 <= i < draws@.len() ==> #[trigger] draws@[i] < 10,
    ensures
        digits@ == made_from(num as nat, draws@, draws@.len() as int),
        silly(digits@),
        digits@.len() <= num,
{
    let mut digits: Vec<u8> = Vec::new();
    let mut k: usize = 0;
    while k < draws.len() && digits.len() < num
        invariant
            k <= draws@.len(),
            silly(digits@),
            digits@.len() <= num,
            digits@ == made_from(num as nat, draws@, k as int),
            forall|i: int| 0 <= i < draws@.len() ==> #[trigger] draws@[i] < 10,
        decreases draws@.len() - k,
    {
        let _ = push_if_silly(&mut digits, draws[k]);
        k = k + 1;
    }
    proof {
        if k < draws@.len() {
            lemma_full_list_stays(num as nat, draws@, k as int, draws@.len() as int);
        }
    }
    digits
}

} // verus!
