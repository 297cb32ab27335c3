//! Why the strong probable-prime test lets every prime pass, and which composites it
//! refuses.

use super::vdf;
use crate::bytes;
use crate::hash;
use vstd::arithmetic::div_mod::*;
use vstd::arithmetic::power::*;
use vstd::prelude::*;
use vstd::seq_lib::*;
use vstd::set_lib::*;

verus! {

/// Whether `d` divides `n`.
pub open spec fn divides(d: int, n: int) -> bool {
    n % d == 0
}

/// Whether `p` is a prime number: above 1, and divided by nothing between.
pub open spec fn is_prime(p: int) -> bool {
    &&& p > 1
    &&& forall|d: int| 1 < d < p ==> !#[trigger] divides(d, p)
}

proof fn lemma_multiple(p: int, k: int)
    requires
        p > 0,
    ensures
        divides(p, p * k),
{
    lemma_mod_multiples_vanish(k, 0, p);
}

/// A prime that divides `a * b` with `0 <= a < p`, and does not divide `b`, leaves only
/// `a = 0`.
proof fn lemma_small_factor(p: int, a: int, b: int)
    requires
        is_prime(p),
        0 <= a < p,
        divides(p, a * b),
        !divides(p, b),
    ensures
        a == 0,
    decreases a,
{
    if a > 0 {
        let q = p / a;
        let r = p % a;
        let k = (a * b) / p;
        lemma_fundamental_div_mod(p, a);
        lemma_fundamental_div_mod(a * b, p);
        assert(r * b == p * (b - q * k)) by (nonlinear_arith)
            requires
                p == a * q + r,
                a * b == p * k,
        ;
        lemma_multiple(p, b - q * k);
        lemma_small_factor(p, r, b);
        if a > 1 {
            assert(divides(a, p));
        }
    }
}

/// A prime that divides a product divides one of the factors.
proof fn lemma_prime_divides_factor(p: int, a: int, b: int)
    requires
        is_prime(p),
        divides(p, a * b),
    ensures
        divides(p, a) || divides(p, b),
{
    if !divides(p, b) {
        lemma_mul_mod_noop_left(a, b, p);
        lemma_small_factor(p, a % p, b);
    }
}

/// The numbers from 1 to `n`.
spec fn numbers(n: nat) -> Seq<int> {
    Seq::new(n, |i: int| i + 1)
}

/// The multiples of `a` by the numbers from 1 to `n`, modulo `p`.
spec fn multiples(a: int, p: int, n: nat) -> Seq<int> {
    Seq::new(n, |i: int| (a * (i + 1)) % p)
}

/// The product of the members of a sequence.
spec fn product(s: Seq<int>) -> int {
    s.fold_left(1, |x: int, y: int| x * y)
}

proof fn lemma_product_step(s: Seq<int>)
    requires
        s.len() > 0,
    ensures
        product(s) == product(s.drop_last()) * s.last(),
{
}

/// The product of the multiples is that of the numbers times a power of `a`.
proof fn lemma_product_of_multiples(a: int, p: int, n: nat)
    requires
        p > 0,
    ensures
        product(multiples(a, p, n)) % p == (pow(a, n) * product(numbers(n))) % p,
    decreases n,
{
    if n == 0 {
        lemma_pow0(a);
        assert(product(multiples(a, p, 0)) == 1);
        assert(product(numbers(0)) == 1);
    } else {
        let m = (n - 1) as nat;
        lemma_product_of_multiples(a, p, m);
        lemma_product_step(multiples(a, p, n));
        lemma_product_step(numbers(n));
        assert(multiples(a, p, n).drop_last() =~= multiples(a, p, m));
        assert(numbers(n).drop_last() =~= numbers(m));
        let left = product(multiples(a, p, m));
        let right = pow(a, m) * product(numbers(m));
        lemma_mul_mod_noop(left, a * n, p);
        lemma_mul_mod_noop(right, a * n, p);
        lemma_mul_mod_noop_right(left, a * n, p);
        reveal(pow);
        assert(pow(a, n) == a * pow(a, m));
        assert(right * (a * n) == pow(a, n) * product(numbers(n))) by (nonlinear_arith)
            requires
                right == pow(a, m) * product(numbers(m)),
                pow(a, n) == a * pow(a, m),
                product(numbers(n)) == product(numbers(m)) * n,
        ;
    }
}

/// No prime divides the product of smaller numbers.
proof fn lemma_prime_spares_smaller_numbers(p: int, n: nat)
    requires
        is_prime(p),
        n < p,
    ensures
        !divides(p, product(numbers(n))),
    decreases n,
{
    if n == 0 {
        assert(product(numbers(0)) == 1);
        lemma_small_mod(1, p as nat);
    } else {
        let m = (n - 1) as nat;
        lemma_prime_spares_smaller_numbers(p, m);
        lemma_product_step(numbers(n));
        assert(numbers(n).drop_last() =~= numbers(m));
        lemma_small_mod(n, p as nat);
        if divides(p, product(numbers(n))) {
            lemma_prime_divides_factor(p, product(numbers(m)), n as int);
        }
    }
}

/// Modulo a prime that does not divide `a`, the multiples of `a` are the numbers below
/// the prime in some order.
proof fn lemma_multiples_permute(a: int, p: int)
    requires
        is_prime(p),
        !divides(p, a),
    ensures
        multiples(a, p, (p - 1) as nat).to_multiset() == numbers((p - 1) as nat).to_multiset(),
{
    let n = (p - 1) as nat;
    let s = multiples(a, p, n);
    let t = numbers(n);
    assert forall|i: int| 0 <= i < n implies 1 <= #[trigger] s[i] < p by {
        if s[i] == 0 {
            lemma_prime_divides_factor(p, a, i + 1);
            lemma_small_mod((i + 1) as nat, p as nat);
        }
    }
    assert forall|i: int, j: int| 0 <= i < j < n implies #[trigger] s[i] != #[trigger] s[j] by {
        if s[i] == s[j] {
            lemma_mod_equivalence(a * (j + 1), a * (i + 1), p);
            assert(a * (j + 1) - a * (i + 1) == a * (j - i)) by (nonlinear_arith);
            lemma_prime_divides_factor(p, a, j - i);
            lemma_small_mod((j - i) as nat, p as nat);
        }
    }
    assert(s.no_duplicates());
    assert(t.no_duplicates());
    assert(s.to_set().subset_of(t.to_set())) by {
        assert forall|x: int| s.to_set().contains(x) implies t.to_set().contains(x) by {
            let i = choose|i: int| 0 <= i < s.len() && s[i] == x;
            assert(t[x - 1] == x);
        }
    }
    s.unique_seq_to_set();
    t.unique_seq_to_set();
    seq_to_set_is_finite(s);
    seq_to_set_is_finite(t);
    lemma_subset_equality(s.to_set(), t.to_set());
    s.lemma_multiset_has_no_duplicates();
    t.lemma_multiset_has_no_duplicates();
    assert forall|x: int| #[trigger] s.to_multiset().count(x) == t.to_multiset().count(x) by {
        broadcast use group_to_multiset_ensures;

        assert(s.to_set().contains(x) == t.to_set().contains(x));
        assert(s.contains(x) <==> s.to_multiset().count(x) > 0);
        assert(t.contains(x) <==> t.to_multiset().count(x) > 0);
    }
    assert(s.to_multiset() =~= t.to_multiset());
}

/// Fermat's little theorem: modulo a prime that does not divide it, every number has
/// `a^(p - 1) = 1`.
proof fn lemma_fermat(a: int, p: int)
    requires
        is_prime(p),
        !divides(p, a),
    ensures
        pow(a, (p - 1) as nat) % p == 1,
{
    let n = (p - 1) as nat;
    let all = product(numbers(n));
    let power = pow(a, n);
    let times = |x: int, y: int| x * y;
    lemma_multiples_permute(a, p);
    assert(commutative_foldl(times)) by {
        assert forall|x: int, y: int, v: int| #[trigger]
            times(times(v, x), y) == times(times(v, y), x) by {
            assert((v * x) * y == (v * y) * x) by (nonlinear_arith);
        }
    }
    lemma_fold_left_permutation(multiples(a, p, n), numbers(n), times, 1);
    lemma_product_of_multiples(a, p, n);
    lemma_mod_equivalence(power * all, all, p);
    assert(power * all - all == (power - 1) * all) by (nonlinear_arith);
    lemma_prime_spares_smaller_numbers(p, n);
    lemma_prime_divides_factor(p, power - 1, all);
    lemma_mod_equivalence(power, 1, p);
    lemma_small_mod(1, p as nat);
}

/// A number is its odd part times a power of 2.
proof fn lemma_odd_part(m: nat)
    requires
        m > 0,
    ensures
        m == vdf::odd_part(m) * pow(2, vdf::twos(m)),
    decreases m,
{
    if m % 2 == 1 {
        lemma_pow0(2);
    } else {
        let half = m / 2;
        lemma_odd_part(half);
        reveal(pow);
        assert(pow(2, vdf::twos(m)) == 2 * pow(2, vdf::twos(half)));
        assert(m == vdf::odd_part(half) * pow(2, vdf::twos(m))) by (nonlinear_arith)
            requires
                m == 2 * half,
                half == vdf::odd_part(half) * pow(2, vdf::twos(half)),
                pow(2, vdf::twos(m)) == 2 * pow(2, vdf::twos(half)),
        ;
    }
}

/// Going back from a power that is 1, by square roots, ends at the first power or at -1.
proof fn lemma_square_roots_of_one(n: int, a: int, d: nat, i: nat)
    requires
        is_prime(n),
        pow(a, d * pow(2, i) as nat) % n == 1,
    ensures
        pow(a, d) % n == 1 || exists|j: nat|
            j < i && #[trigger] pow(a, d * pow(2, j) as nat) % n == n - 1,
    decreases i,
{
    if i == 0 {
        lemma_pow0(2);
        assert(d * pow(2, i) as nat == d) by (nonlinear_arith)
            requires
                pow(2, i) == 1,
        ;
    } else {
        let j = (i - 1) as nat;
        let e = d * pow(2, j) as nat;
        let x = pow(a, e);
        lemma_pow_positive(2, j);
        reveal(pow);
        assert(pow(2, i) == 2 * pow(2, j));
        assert(d * pow(2, i) as nat == e + e) by (nonlinear_arith)
            requires
                pow(2, i) == 2 * pow(2, j),
                pow(2, j) > 0,
                e == d * pow(2, j) as nat,
        ;
        lemma_pow_adds(a, e, e);
        lemma_small_mod(1, n as nat);
        lemma_mod_equivalence(x * x, 1, n);
        assert(x * x - 1 == (x - 1) * (x + 1)) by (nonlinear_arith);
        lemma_prime_divides_factor(n, x - 1, x + 1);
        if divides(n, x - 1) {
            lemma_mod_equivalence(x, 1, n);
            lemma_square_roots_of_one(n, a, d, j);
            if pow(a, d) % n != 1 {
                let k = choose|k: nat|
                    k < j && #[trigger] pow(a, d * pow(2, k) as nat) % n == n - 1;
                assert(k < i && pow(a, d * pow(2, k) as nat) % n == n - 1);
            }
        } else {
            lemma_small_mod((n - 1) as nat, n as nat);
            lemma_mod_equivalence(x, n - 1, n);
            lemma_mod_add_multiples_vanish(x - (n - 1), n);
            assert(x % n == n - 1);
        }
    }
}

/// Every prime passes the strong probable-prime test: the test refuses composites only.
pub proof fn law_primes_pass(n: nat)
    requires
        is_prime(n as int),
    ensures
        vdf::probable_prime(n),
{
    if n > 3 {
        assert forall|k: int|
            0 <= k < 16 && (#[trigger] vdf::MR_BASES@[k]) < n implies vdf::strong_probable_prime(
            n,
            vdf::MR_BASES@[k] as nat,
        ) by {
            let a = vdf::MR_BASES@[k] as int;
            let d = vdf::odd_part((n - 1) as nat);
            let s = vdf::twos((n - 1) as nat);
            assert(a >= 2);
            lemma_small_mod(a as nat, n);
            lemma_fermat(a, n as int);
            lemma_odd_part((n - 1) as nat);
            lemma_pow_positive(2, s);
            assert((n - 1) as nat == d * pow(2, s) as nat);
            lemma_square_roots_of_one(n as int, a, d, s);
        }
    }
}

proof fn lemma_odd_part_positive(m: nat)
    requires
        m > 0,
    ensures
        vdf::odd_part(m) > 0,
    decreases m,
{
    if m % 2 == 0 {
        lemma_odd_part_positive(m / 2);
    }
}

/// Modulo a multiple of `a`, no power of `a` is 1 or -1.
proof fn lemma_powers_of_a_factor(n: int, a: int, e: nat)
    requires
        1 < a < n,
        divides(a, n),
        e > 0,
    ensures
        pow(a, e) % n != 1,
        pow(a, e) % n != n - 1,
{
    let x = pow(a, e);
    let q = x / n;
    let k = n / a;
    reveal(pow);
    let rest = pow(a, (e - 1) as nat);
    assert(x == a * rest);
    lemma_fundamental_div_mod(x, n);
    lemma_fundamental_div_mod(n, a);
    let r = x % n;
    assert(r == a * (rest - k * q)) by (nonlinear_arith)
        requires
            x == a * rest,
            x == n * q + r,
            n == a * k,
    ;
    lemma_multiple(a, rest - k * q);
    assert(divides(a, r));
    if r == 1 {
        lemma_small_mod(1, a as nat);
    }
    if r == n - 1 {
        assert(1 == a * (k - (rest - k * q))) by (nonlinear_arith)
            requires
                n - 1 == a * (rest - k * q),
                n == a * k,
        ;
        lemma_multiple(a, k - (rest - k * q));
        lemma_small_mod(1, a as nat);
    }
}

/// A number that one of the bases divides is refused, unless it is that base.
pub proof fn law_multiples_of_a_base_are_refused(n: nat, k: int)
    requires
        n > 3,
        0 <= k < 16,
        vdf::MR_BASES@[k] < n,
        divides(vdf::MR_BASES@[k] as int, n as int),
    ensures
        !vdf::probable_prime(n),
{
    let a = vdf::MR_BASES@[k] as int;
    let d = vdf::odd_part((n - 1) as nat);
    assert(a >= 2);
    lemma_odd_part_positive((n - 1) as nat);
    lemma_powers_of_a_factor(n as int, a, d);
    assert forall|i: nat| #[trigger] pow(a, d * pow(2, i) as nat) % (n as int) != n - 1 by {
        lemma_pow_positive(2, i);
        assert(d * pow(2, i) as nat > 0) by (nonlinear_arith)
            requires
                d > 0,
                pow(2, i) > 0,
        ;
        lemma_powers_of_a_factor(n as int, a, d * pow(2, i) as nat);
    }
    assert(!vdf::strong_probable_prime(n, vdf::MR_BASES@[k] as nat));
}

/// One of the bases divides each number from 2 up to 58.
proof fn lemma_base_divides_small_number(e: int) -> (k: int)
    requires
        1 < e < 59,
    ensures
        0 <= k < 16,
        vdf::MR_BASES@[k] <= e,
        divides(vdf::MR_BASES@[k] as int, e),
{
    let k: int = if e % 2 == 0 {
        0
    } else if e % 3 == 0 {
        1
    } else if e % 5 == 0 {
        2
    } else if e % 7 == 0 {
        3
    } else if e == 11 {
        4
    } else if e == 13 {
        5
    } else if e == 17 {
        6
    } else if e == 19 {
        7
    } else if e == 23 {
        8
    } else if e == 29 {
        9
    } else if e == 31 {
        10
    } else if e == 37 {
        11
    } else if e == 41 {
        12
    } else if e == 43 {
        13
    } else if e == 47 {
        14
    } else {
        15
    };
    assert(k == 15 ==> e == 53);
    let b = vdf::MR_BASES@[k] as int;
    assert(k >= 4 ==> b == e);
    if k >= 4 {
        lemma_multiple(e, 1);
    }
    k
}

/// Below the square of the first prime that is no base, the test decides: exactly the
/// primes pass.
pub proof fn law_small_numbers_are_decided(n: nat)
    requires
        n < 59 * 59,
    ensures
        vdf::probable_prime(n) <==> is_prime(n as int),
{
    if is_prime(n as int) {
        law_primes_pass(n);
    } else if n > 3 {
        let d = choose|d: int| 1 < d < n && #[trigger] divides(d, n as int);
        let c = n as int / d;
        lemma_fundamental_div_mod(n as int, d);
        assert(d >= 59 ==> c < 59) by (nonlinear_arith)
            requires
                n == d * c,
                n < 59 * 59,
        ;
        assert(1 < c) by (nonlinear_arith)
            requires
                n == d * c,
                1 < d < n,
        ;
        let (e, f) = if d < 59 {
            (d, c)
        } else {
            (c, d)
        };
        assert(n == e * f) by (nonlinear_arith)
            requires
                n == d * c,
                (e == d && f == c) || (e == c && f == d),
        ;
        let k = lemma_base_divides_small_number(e);
        let b = vdf::MR_BASES@[k] as int;
        let g = e / b;
        lemma_fundamental_div_mod(e, b);
        assert(n == b * (g * f)) by (nonlinear_arith)
            requires
                n == e * f,
                e == b * g,
        ;
        lemma_multiple(b, g * f);
        assert(e < n) by (nonlinear_arith)
            requires
                n == e * f,
                e > 1,
                f > 1,
        ;
        law_multiples_of_a_base_are_refused(n, k);
    } else {
        if n == 2 || n == 3 {
            assert forall|d: int| 1 < d < n implies !#[trigger] divides(d, n as int) by {
                assert(d == 2 && n == 3);
            }
        }
    }
}

/// The search for the challenge prime passes over no prime: it ends at the first odd prime
/// from its start on, or before.
pub proof fn law_search_skips_no_prime(start: u128, p: u128)
    requires
        start % 2 == 1,
        start <= p,
        p > 2,
        is_prime(p as int),
    ensures
        start <= vdf::next_probable_prime(start) <= p,
    decreases p - start,
{
    assert(!divides(2, p as int));
    law_primes_pass(p as nat);
    if !vdf::probable_prime(start as nat) {
        law_search_skips_no_prime((start + 2) as u128, p);
    }
}

/// The bases of the test, spelt out.
pub open spec fn is_base(a: nat) -> bool {
    ||| a == 2
    ||| a == 3
    ||| a == 5
    ||| a == 7
    ||| a == 11
    ||| a == 13
    ||| a == 17
    ||| a == 19
    ||| a == 23
    ||| a == 29
    ||| a == 31
    ||| a == 37
    ||| a == 41
    ||| a == 43
    ||| a == 47
    ||| a == 53
}

/// The first sixteen primes are the bases, and each is at its place.
proof fn lemma_bases(a: nat) -> (k: int)
    requires
        is_base(a),
    ensures
        0 <= k < 16,
        vdf::MR_BASES@[k] == a,
{
    if a == 2 {
        0
    } else if a == 3 {
        1
    } else if a == 5 {
        2
    } else if a == 7 {
        3
    } else if a == 11 {
        4
    } else if a == 13 {
        5
    } else if a == 17 {
        6
    } else if a == 19 {
        7
    } else if a == 23 {
        8
    } else if a == 29 {
        9
    } else if a == 31 {
        10
    } else if a == 37 {
        11
    } else if a == 41 {
        12
    } else if a == 43 {
        13
    } else if a == 47 {
        14
    } else {
        15
    }
}

/// There is one way to write a number as an odd number times a power of 2.
proof fn lemma_odd_part_is_unique(m: nat, d: nat, s: nat)
    requires
        m == d * pow(2, s),
        d % 2 == 1,
    ensures
        vdf::odd_part(m) == d,
        vdf::twos(m) == s,
    decreases s,
{
    if s == 0 {
        lemma_pow0(2);
    } else {
        let t = (s - 1) as nat;
        reveal(pow);
        lemma_pow_positive(2, t);
        let half = (d * pow(2, t)) as nat;
        assert(m == 2 * half && half > 0) by (nonlinear_arith)
            requires
                m == d * pow(2, s),
                pow(2, s) == 2 * pow(2, t),
                pow(2, t) > 0,
                d > 0,
                half == d * pow(2, t),
        ;
        lemma_odd_part_is_unique(half, d, t);
        assert(m % 2 == 0 && m / 2 == half);
    }
}

/// What the test asks of a number above 3: with `n - 1 = d * 2^s` and `d` odd, each of the
/// first sixteen primes below `n`, raised to `d`, is 1 modulo `n`, or becomes -1 by fewer
/// than `s` squarings.
pub proof fn law_test_asks_every_base(n: nat, d: nat, s: nat)
    requires
        n > 3,
        n - 1 == d * pow(2, s),
        d % 2 == 1,
    ensures
        vdf::probable_prime(n) <==> forall|a: nat|
            #![trigger is_base(a)]
            is_base(a) && a < n ==> {
                ||| pow(a as int, d) % (n as int) == 1
                ||| exists|i: nat|
                    i < s && #[trigger] pow(a as int, d * pow(2, i) as nat) % (n as int) == n - 1
            },
{
    lemma_odd_part_is_unique((n - 1) as nat, d, s);
    if vdf::probable_prime(n) {
        assert forall|a: nat| #![trigger is_base(a)] is_base(a) && a < n implies {
            ||| pow(a as int, d) % (n as int) == 1
            ||| exists|i: nat|
                i < s && #[trigger] pow(a as int, d * pow(2, i) as nat) % (n as int) == n - 1
        } by {
            let k = lemma_bases(a);
            assert(vdf::strong_probable_prime(n, vdf::MR_BASES@[k] as nat));
        }
    }
    if forall|a: nat|
        #![trigger is_base(a)]
        is_base(a) && a < n ==> {
            ||| pow(a as int, d) % (n as int) == 1
            ||| exists|i: nat|
                i < s && #[trigger] pow(a as int, d * pow(2, i) as nat) % (n as int) == n - 1
        } {
        assert forall|k: int|
            0 <= k < 16 && (#[trigger] vdf::MR_BASES@[k]) < n implies vdf::strong_probable_prime(
            n,
            vdf::MR_BASES@[k] as nat,
        ) by {
            assert(is_base(vdf::MR_BASES@[k] as nat));
        }
    }
}

/// The challenge prime of a transcript passes the test, and is found by going up from the
/// number in the first 16 bytes of the digest of challenge, output and delay: no odd prime
/// from that number on is passed over.
pub proof fn law_challenge_prime_follows_the_digest(
    challenge: Seq<u8>,
    output: Seq<u8>,
    delay: u32,
    p: u128,
)
    ensures
        ({
            let l = vdf::challenge_prime(challenge, output, delay);
            let spelt = seq![
                (delay / 0x100_0000) as u8,
                (delay / 0x1_0000 % 0x100) as u8,
                (delay / 0x100 % 0x100) as u8,
                (delay % 0x100) as u8,
            ];
            let seed = bytes::be_nat(hash::sha256_of(challenge + output + spelt).take(16)) as u128;
            &&& l % 2 == 1
            &&& l >= 3
            &&& vdf::probable_prime(l as nat)
            &&& is_prime(p as int) && p > 2 && p >= seed ==> seed <= l <= p
        }),
{
    let spelt = seq![
        (delay / 0x100_0000) as u8,
        (delay / 0x1_0000 % 0x100) as u8,
        (delay / 0x100 % 0x100) as u8,
        (delay % 0x100) as u8,
    ];
    reveal_with_fuel(bytes::be_bytes, 5);
    assert(bytes::be_bytes(delay as nat, 4) =~= spelt);
    assert(vdf::transcript(challenge, output, delay) =~= challenge + output + spelt);
    let seed = bytes::be_nat(hash::sha256_of(challenge + output + spelt).take(16)) as u128;
    vdf::lemma_challenge_prime(challenge, output, delay);
    if is_prime(p as int) && p > 2 && p >= seed {
        assert(!divides(2, p as int));
        law_search_skips_no_prime(
            if seed % 2 == 0 {
                (seed + 1) as u128
            } else {
                seed
            },
            p,
        );
    }
}

} // verus!
