use snippets::sieve::Sieve;

#[test]
fn finds_all_primes_bellow_25() {
    let sieve = Sieve::build(25);

    assert!(sieve.is_prime(2));
    assert!(sieve.is_prime(3));
    assert!(sieve.is_prime(5));
    assert!(sieve.is_prime(7));
    assert!(sieve.is_prime(11));
    assert!(sieve.is_prime(13));
    assert!(sieve.is_prime(17));
    assert!(sieve.is_prime(19));
    assert!(sieve.is_prime(23));

    assert!(sieve.not_prime(0));
    assert!(sieve.not_prime(1));
    assert!(sieve.not_prime(4));
    assert!(sieve.not_prime(6));
    assert!(sieve.not_prime(8));
    assert!(sieve.not_prime(9));
    assert!(sieve.not_prime(10));
    assert!(sieve.not_prime(12));
    assert!(sieve.not_prime(14));
    assert!(sieve.not_prime(15));
    assert!(sieve.not_prime(16));
    assert!(sieve.not_prime(18));
    assert!(sieve.not_prime(20));
    assert!(sieve.not_prime(21));
    assert!(sieve.not_prime(22));
    assert!(sieve.not_prime(24));

    assert_eq!(sieve.count_primes(), 9);
}

#[test]
fn counts_the_primes_below_powers_of_ten() {
    assert_eq!(Sieve::build(10).count_primes(), 4);
    assert_eq!(Sieve::build(100).count_primes(), 25);
    assert_eq!(Sieve::build(1_000).count_primes(), 168);
    assert_eq!(Sieve::build(10_000).count_primes(), 1_229);
    assert_eq!(Sieve::build(100_000).count_primes(), 9_592);
}

#[test]
fn knows_nothing_at_or_above_its_limit_but_two() {
    let sieve = Sieve::build(10);
    assert!(sieve.is_prime(7));
    assert!(sieve.not_prime(9));
    assert!(sieve.not_prime(11));
    assert!(sieve.not_prime(13));
    for limit in [0usize, 1, 2, 3] {
        let small = Sieve::build(limit);
        assert!(small.is_prime(2));
        assert!(small.not_prime(1));
        assert!(small.not_prime(3));
        assert_eq!(small.count_primes(), 1);
    }
    assert_eq!(Sieve::build(4).count_primes(), 2);
    assert!(Sieve::build(4).is_prime(3));
}

#[test]
fn agrees_with_trial_division() {
    let sieve = Sieve::build(2_000);
    for n in 0usize..2_000 {
        let prime = n >= 2 && (2..n).take_while(|d| d * d <= n).all(|d| n % d != 0);
        assert_eq!(sieve.is_prime(n), prime, "{}", n);
    }
}
