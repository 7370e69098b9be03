//! The sieve of Eratosthenes over the odd numbers below a limit.

use vstd::prelude::*;
use vstd::arithmetic::div_mod::{lemma_fundamental_div_mod, lemma_mod_multiples_basic};

verus! {

/// Whether `d` divides `m`.
pub open spec fn divides(d: nat, m: nat) -> bool {
    d > 0 && m % d == 0
}

/// Whether `n` is a prime number.
pub open spec fn is_prime_number(n: nat) -> bool {
    n >= 2 && forall|d: nat| 2 <= d < n ==> !#[trigger] divides(d, n)
}

/// The number of primes below `n`.
pub open spec fn prime_count(n: nat) -> nat
    decreases n,
{
    if n == 0 {
        0
    } else {
        prime_count((n - 1) as nat) + if is_prime_number((n - 1) as nat) {
            1nat
        } else {
            0nat
        }
    }
}

/// The number of primes among the first `k` odd numbers.
pub open spec fn odd_prime_count(k: nat) -> nat
    decreases k,
{
    if k == 0 {
        0
    } else {
        odd_prime_count((k - 1) as nat) + if is_prime_number(odd_at(k - 1)) {
            1nat
        } else {
            0nat
        }
    }
}

/// Whether `m` is at least 3 and has no divisor `d` with `3 <= d < bound`
/// whose square is at most `m`: what is still marked once every factor below
/// `bound` has been sieved out.
pub open spec fn survives(m: nat, bound: nat) -> bool {
    m >= 3 && forall|d: nat| 3 <= d < bound && d * d <= m ==> !#[trigger] divides(d, m)
}

/// The odd number that entry `i` of the map stands for.
pub open spec fn odd_at(i: int) -> nat {
    (2 * i + 1) as nat
}

proof fn lemma_divides_product(d: nat, q: nat)
    requires
        d > 0,
    ensures
        divides(d, d * q),
{
    lemma_mod_multiples_basic(q as int, d as int);
    assert(d * q == q * d) by (nonlinear_arith);
}

proof fn lemma_divides_quotient(d: nat, m: nat)
    requires
        divides(d, m),
    ensures
        m == d * (m / d),
{
    lemma_fundamental_div_mod(m as int, d as int);
}

proof fn lemma_divides_transitive(d: nat, f: nat, m: nat)
    requires
        divides(d, f),
        divides(f, m),
    ensures
        divides(d, m),
{
    lemma_divides_quotient(d, f);
    lemma_divides_quotient(f, m);
    let a = f / d;
    let b = m / f;
    assert(m == d * (a * b)) by (nonlinear_arith)
        requires
            m == f * b,
            f == d * a,
    ;
    lemma_divides_product(d, a * b);
}

proof fn lemma_odd_product(f: nat, q: nat)
    requires
        f % 2 == 1,
        q % 2 == 1,
    ensures
        (f * q) % 2 == 1,
{
    let x = f / 2;
    let y = q / 2;
    assert(f * q == 2 * (2 * x * y + x + y) + 1) by (nonlinear_arith)
        requires
            f == 2 * x + 1,
            q == 2 * y + 1,
    ;
}

proof fn lemma_even_multiple(f: nat, a: nat)
    requires
        a % 2 == 0,
    ensures
        (f * a) % 2 == 0,
{
    let y = a / 2;
    assert(f * a == 2 * (f * y)) by (nonlinear_arith)
        requires
            a == 2 * y,
    ;
}

/// Counting the primes by the odd numbers: 2 is the one even prime.
proof fn lemma_prime_count_by_odds(k: nat)
    requires
        k >= 1,
    ensures
        prime_count(2 * k + 1) == 1 + odd_prime_count(k),
        k >= 2 ==> prime_count(2 * k) == 1 + odd_prime_count(k),
    decreases k,
{
    if k == 1 {
        reveal_with_fuel(prime_count, 4);
        reveal_with_fuel(odd_prime_count, 2);
        assert(!is_prime_number(0));
        assert(!is_prime_number(1));
        assert(is_prime_number(2));
    } else {
        let j = (k - 1) as nat;
        lemma_prime_count_by_odds(j);
        assert(odd_at(j as int) == 2 * j + 1);
        assert(prime_count(2 * k) == prime_count((2 * k - 1) as nat) + if is_prime_number(
            (2 * k - 1) as nat,
        ) {
            1nat
        } else {
            0nat
        });
        assert(divides(2, 2 * k)) by {
            lemma_divides_product(2, k);
        }
        assert(!is_prime_number(2 * k));
        assert(prime_count(2 * k + 1) == prime_count(2 * k) + if is_prime_number(2 * k) {
            1nat
        } else {
            0nat
        });
    }
}

/// An odd number has no even divisor.
proof fn lemma_odd_has_no_even_divisor(d: nat, m: nat)
    requires
        m % 2 == 1,
        d % 2 == 0,
    ensures
        !divides(d, m),
{
    if divides(d, m) {
        lemma_divides_quotient(d, m);
        assert(m == (m / d) * d) by (nonlinear_arith)
            requires
                m == d * (m / d),
        ;
        lemma_even_multiple(m / d, d);
    }
}

/// Between one odd multiple of `f` and the next there is no odd multiple of
/// `f`.
proof fn lemma_no_odd_multiple_between(f: nat, q: nat, m: nat)
    requires
        f >= 1,
        q % 2 == 1,
        m % 2 == 1,
        divides(f, m),
        f * q < m,
    ensures
        f * (q + 2) <= m,
{
    lemma_divides_quotient(f, m);
    let a = m / f;
    assert(q < a) by (nonlinear_arith)
        requires
            f * q < f * a,
            f >= 1,
    ;
    if a == q + 1 {
        lemma_even_multiple(f, a);
    }
    assert(f * (q + 2) <= f * a) by (nonlinear_arith)
        requires
            q + 2 <= a,
            f >= 1,
    ;
}

/// What is left unmarked below `limit` once every factor up to the square
/// root of `limit` has been sieved out is prime, and every odd prime is left.
proof fn lemma_survivors_are_primes(m: nat, bound: nat, limit: nat)
    requires
        m % 2 == 1,
        m < limit,
        bound * bound > limit,
    ensures
        survives(m, bound) <==> is_prime_number(m),
{
    if survives(m, bound) {
        assert forall|d: nat| 2 <= d < m implies !#[trigger] divides(d, m) by {
            if divides(d, m) {
                lemma_divides_quotient(d, m);
                let e = m / d;
                assert(e * d == m) by (nonlinear_arith)
                    requires
                        m == d * e,
                ;
                assert(e >= 2) by (nonlinear_arith)
                    requires
                        m == d * e,
                        d < m,
                        d >= 2,
                ;
                lemma_divides_product(e, d);
                if d % 2 == 0 {
                    lemma_odd_has_no_even_divisor(d, m);
                }
                if e % 2 == 0 {
                    lemma_even_multiple(d, e);
                }
                // the smaller of the two cofactors is at least 3 and its square is at most m
                let s = if d <= e {
                    d
                } else {
                    e
                };
                assert(s * s <= m) by (nonlinear_arith)
                    requires
                        m == d * e,
                        s == d || s == e,
                        s <= d,
                        s <= e,
                        s >= 0,
                ;
                assert(s < bound) by (nonlinear_arith)
                    requires
                        s * s <= m,
                        m < limit,
                        bound * bound > limit,
                        s >= 0,
                        bound >= 0,
                ;
                assert(divides(s, m));
                assert(false);
            }
        }
    }
    if is_prime_number(m) {
        assert(m != 2);
        assert forall|d: nat| 3 <= d < bound && d * d <= m implies !#[trigger] divides(d, m) by {
            assert(d < m) by (nonlinear_arith)
                requires
                    d * d <= m,
                    d >= 3,
            ;
        }
    }
}

/// Moving the bound past a factor whose multiples are gone.
proof fn lemma_survives_step(m: nat, f: nat)
    requires
        m % 2 == 1,
        f % 2 == 1,
        f >= 3,
    ensures
        survives(m, f + 2) <==> survives(m, f) && !(divides(f, m) && f * f <= m),
{
    if survives(m, f) && !(divides(f, m) && f * f <= m) {
        assert forall|d: nat| 3 <= d < f + 2 && d * d <= m implies !#[trigger] divides(d, m) by {
            if d == f + 1 {
                lemma_odd_has_no_even_divisor(d, m);
            }
        }
    }
    if survives(m, f + 2) {
        assert(divides(f, m) && f * f <= m ==> false);
    }
}

/// A prime sieve: for every odd number below its limit, whether it is prime.
pub struct Sieve {
    upper_limit: usize,
    map: Vec<bool>,
}

impl Sieve {
    /// The limit below which the sieve knows the primes.
    pub closed spec fn limit(&self) -> nat {
        self.upper_limit as nat
    }

    /// The layout of the map: one entry for each odd number below the limit.
    pub closed spec fn sized(&self) -> bool {
        self.map@.len() == self.upper_limit / 2
    }

    /// Whether the entry of each odd number below the limit is what `keeps`
    /// says of the number.
    spec fn marks(&self, keeps: spec_fn(nat) -> bool) -> bool {
        forall|i: int| 0 <= i < self.map@.len() ==> #[trigger] self.map@[i] == keeps(odd_at(i))
    }

    /// Validity of a finished sieve: an odd number below the limit is marked
    /// exactly if it is prime.
    pub closed spec fn wf(&self) -> bool {
        &&& self.sized()
        &&& self.marks(|m: nat| is_prime_number(m))
    }

    /// The sieve for the numbers below `upper_limit`.
    pub fn build(upper_limit: usize) -> (sieve: Self)
        ensures
            sieve.wf(),
            sieve.limit() == upper_limit,
    {
        let mut sieve = Sieve::new(upper_limit);
        sieve.clear_non_primes();
        sieve
    }

    /// Whether `number` is prime, for the numbers that the sieve knows: those
    /// below its limit, and 2. Of any other number it says no.
    pub fn is_prime(&self, number: usize) -> (prime: bool)
        requires
            self.wf(),
        ensures
            prime <==> number == 2 || (number < self.limit() && is_prime_number(number as nat)),
    {
        if number < self.upper_limit && number % 2 == 1 {
            assert(odd_at((number / 2) as int) == number);
            self.map[number / 2]
        } else {
            proof {
                if number % 2 == 0 && number != 2 && number >= 2 {
                    assert(divides(2, number as nat));
                }
            }
            number == 2
        }
    }

    /// The negation of [`Sieve::is_prime`].
    pub fn not_prime(&self, number: usize) -> (composite: bool)
        requires
            self.wf(),
        ensures
            composite <==> !(number == 2 || (number < self.limit() && is_prime_number(
                number as nat,
            ))),
    {
        !self.is_prime(number)
    }

    /// The number of primes below the limit. The prime 2 is counted in any
    /// case, also where the limit is 2 or less.
    pub fn count_primes(&self) -> (count: usize)
        requires
            self.wf(),
        ensures
            count == if self.limit() <= 2 {
                1
            } else {
                prime_count(self.limit())
            },
    {
        let mut count: usize = 1;
        let mut i: usize = 0;
        while i < self.map.len()
            invariant
                self.wf(),
                i <= self.map@.len(),
                count == 1 + odd_prime_count(i as nat),
                count <= i + 1,
            decreases self.map@.len() - i,
        {
            assert(self.map@[i as int] == is_prime_number(odd_at(i as int)));
            if self.map[i] {
                count = count + 1;
            }
            i = i + 1;
        }
        proof {
            let k = i as nat;
            assert(k == self.upper_limit / 2);
            if self.upper_limit > 2 {
                lemma_prime_count_by_odds(k);
                if self.upper_limit % 2 == 0 {
                    assert(self.upper_limit == 2 * k);
                } else {
                    assert(self.upper_limit == 2 * k + 1);
                }
            } else {
                reveal_with_fuel(odd_prime_count, 2);
                assert(!is_prime_number(1));
                assert(odd_at(0) == 1);
            }
        }
        count
    }

    /// The sieve before any sieving: every odd number below the limit is
    /// marked.
    fn new(upper_limit: usize) -> (sieve: Self)
        ensures
            sieve.sized(),
            sieve.upper_limit == upper_limit,
            sieve.marks(|m: nat| true),
    {
        let mut map: Vec<bool> = Vec::new();
        let mut i: usize = 0;
        while i < upper_limit / 2
            invariant
                i <= upper_limit / 2,
                map@.len() == i,
                forall|k: int| 0 <= k < i ==> map@[k],
            decreases upper_limit / 2 - i,
        {
            map.push(true);
            i = i + 1;
        }
        Sieve { upper_limit, map }
    }

    /// Unmarks `number`, which is odd and below the limit.
    fn clear_prime_unchecked(&mut self, number: usize)
        requires
            old(self).sized(),
            number % 2 == 1,
            number < old(self).upper_limit,
        ensures
            final(self).sized(),
            final(self).upper_limit == old(self).upper_limit,
            final(self).map@ == old(self).map@.update((number / 2) as int, false),
    {
        self.map.set(number / 2, false);
    }

    /// Whether `number`, which is odd and below the limit, is still marked.
    fn is_prime_unchecked(&self, number: usize) -> (marked: bool)
        requires
            self.sized(),
            number % 2 == 1,
            number < self.upper_limit,
        ensures
            marked == self.map@[(number / 2) as int],
    {
        self.map[number / 2]
    }

    /// Sieves: unmarks 1, then the odd multiples of every odd factor up to
    /// the square root of the limit, each factor from its square on.
    fn clear_non_primes(&mut self)
        requires
            old(self).sized(),
            old(self).marks(|m: nat| true),
        ensures
            final(self).wf(),
            final(self).upper_limit == old(self).upper_limit,
    {
        if self.upper_limit < 2 {
            return ;
        }
        self.clear_prime_unchecked(1);
        let limit = self.upper_limit;
        let mut factor: usize = 3;
        while factor <= limit / factor
            invariant
                self.sized(),
                self.upper_limit == limit,
                limit >= 2,
                3 <= factor,
                factor % 2 == 1,
                self.marks(|m: nat| survives(m, factor as nat)),
            decreases limit - factor,
        {
            assert(factor * factor <= limit) by (nonlinear_arith)
                requires
                    factor <= limit / factor,
                    factor >= 3,
            ;
            assert(factor < limit) by (nonlinear_arith)
                requires
                    factor * factor <= limit,
                    factor >= 3,
            ;
            let ghost f = factor as nat;
            if self.is_prime_unchecked(factor) {
                let mut mult: usize = factor * factor;
                let ghost mut q: nat = f;
                while mult < limit
                    invariant
                        self.sized(),
                        self.upper_limit == limit,
                        3 <= factor < limit,
                        f == factor,
                        f % 2 == 1,
                        f * f <= mult <= limit,
                        q % 2 == 1,
                        mult < limit ==> mult == f * q,
                        self.marks(
                            |m: nat|
                                survives(m, f) && !(divides(f, m) && f * f <= m && m < mult),
                        ),
                    decreases limit - mult,
                {
                    proof {
                        lemma_odd_product(f, q);
                        lemma_divides_product(f, q);
                    }
                    let ghost before = self.map@;
                    self.clear_prime_unchecked(mult);
                    assert(2 * f <= f * f) by (nonlinear_arith)
                        requires
                            f >= 3,
                    ;
                    let step = 2 * factor;
                    let next: usize = if limit - mult <= step {
                        limit
                    } else {
                        mult + step
                    };
                    proof {
                        assert(f * (q + 2) == mult + 2 * f) by (nonlinear_arith)
                            requires
                                mult == f * q,
                        ;
                        assert forall|i: int| 0 <= i < self.map@.len() implies #[trigger] self.map@[i]
                            == (survives(odd_at(i), f) && !(divides(f, odd_at(i)) && f * f
                            <= odd_at(i) && odd_at(i) < next)) by {
                            let m = odd_at(i);
                            assert(before[i] == (survives(m, f) && !(divides(f, m) && f * f <= m
                                && m < mult)));
                            if i != mult / 2 {
                                if divides(f, m) && mult < m {
                                    lemma_no_odd_multiple_between(f, q, m);
                                }
                            }
                        }
                        q = q + 2;
                    }
                    mult = next;
                }
                proof {
                    assert forall|i: int| 0 <= i < self.map@.len() implies #[trigger] self.map@[i]
                        == survives(odd_at(i), f + 2) by {
                        lemma_survives_step(odd_at(i), f);
                    }
                }
            } else {
                proof {
                    // a factor that is unmarked has a smaller divisor, which took its
                    // multiples along
                    let fi = (factor / 2) as int;
                    assert(odd_at(fi) == f);
                    assert(!survives(f, f));
                    let d = choose|d: nat| 3 <= d < f && d * d <= f && #[trigger] divides(d, f);
                    assert forall|i: int| 0 <= i < self.map@.len() implies #[trigger] self.map@[i]
                        == survives(odd_at(i), f + 2) by {
                        let m = odd_at(i);
                        lemma_survives_step(m, f);
                        if divides(f, m) && f * f <= m {
                            lemma_divides_transitive(d, f, m);
                            assert(f <= f * f) by (nonlinear_arith)
                                requires
                                    f >= 3,
                            ;
                        }
                    }
                }
            }
            assert(factor + 2 <= limit) by (nonlinear_arith)
                requires
                    factor * factor <= limit,
                    factor >= 3,
            ;
            factor = factor + 2;
        }
        proof {
            let bound = factor as nat;
            let whole = limit as nat;
            assert(bound * bound > whole) by (nonlinear_arith)
                requires
                    bound > whole / bound,
                    bound >= 3,
            ;
            assert forall|i: int| 0 <= i < self.map@.len() implies #[trigger] self.map@[i]
                == is_prime_number(odd_at(i)) by {
                lemma_survivors_are_primes(odd_at(i), bound, limit as nat);
            }
        }
    }
}

} // verus!
