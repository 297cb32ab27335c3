//! Verification of Wesolowski delay proofs.
//!
//! A delay function `x^(2^T) mod N` takes `T` sequential squarings to evaluate and
//! a handful of exponentiations to check. Given the challenge `x`, the claimed
//! output `y` and the witness `pi`, the verifier derives a prime `l` from the
//! transcript, computes `r = 2^T mod l` and accepts if and only if
//! `y = pi^l * x^r (mod N)`.

use super::bigint::{
    mul_mod_1024, pow_mod_1024, pow_mod_128, rem_1024, square_mod_128, wrapping_sub_1024,
};
use crate::bytes;
use crate::error::Error;
use crate::hash;
use vstd::arithmetic::div_mod::*;
use vstd::arithmetic::mul::*;
use vstd::arithmetic::power::*;
use vstd::prelude::*;

verus! {

/// Fixed 1024-bit RSA modulus of the delay group; its factors were discarded.
pub const MODULUS: [u8; 128] = [
    0xb5, 0x6f, 0xda, 0xb2, 0xf4, 0xee, 0x59, 0x57, 0xcd, 0x1b, 0x66, 0x38, 0xb3, 0x6b, 0xd2, 0x72,
    0x70, 0x7a, 0xde, 0xbe, 0x94, 0x84, 0x99, 0x6f, 0xdd, 0x9b, 0xe6, 0xce, 0xdb, 0x8d, 0xbf, 0x99,
    0xe1, 0x18, 0xe6, 0x79, 0xb2, 0x74, 0xb6, 0x35, 0xc6, 0x5e, 0xd3, 0x58, 0xfd, 0x8a, 0x66, 0xd1,
    0xb5, 0x6c, 0xce, 0x5f, 0x96, 0xdb, 0x59, 0x2e, 0x3c, 0xae, 0xab, 0xc3, 0x6c, 0xf9, 0xfd, 0xac,
    0x5b, 0x73, 0x57, 0x99, 0x4e, 0xfe, 0xfb, 0x6e, 0x03, 0x13, 0x65, 0x32, 0x4d, 0x1b, 0x20, 0xb3,
    0xb3, 0xc3, 0xf3, 0x4d, 0x59, 0xf8, 0x46, 0xcd, 0xaf, 0xed, 0x1f, 0x92, 0x1e, 0x05, 0x20, 0xaf,
    0xf3, 0x42, 0xd8, 0xcb, 0x18, 0xa8, 0x94, 0x23, 0x6c, 0x9a, 0x8e, 0x6f, 0x15, 0xdf, 0xcc, 0xc0,
    0xe7, 0x48, 0x6d, 0x57, 0x9f, 0x79, 0xc0, 0xfa, 0x1a, 0xcd, 0x56, 0xdd, 0x2a, 0x09, 0xc7, 0xf5,
];

/// Bases of the strong probable-prime test.
pub const MR_BASES: [u32; 16] = [2, 3, 5, 7, 11, 13, 17, 19, 23, 29, 31, 37, 41, 43, 47, 53];

proof fn lemma_modulus()
    ensures
        bytes::be_nat(MODULUS@) % 2 == 1,
        bytes::be_nat(MODULUS@) > 3,
{
    assert(MODULUS@.last() == 0xf5);
}

/// How often 2 divides `m`.
pub open spec fn twos(m: nat) -> nat
    decreases m,
{
    if m == 0 || m % 2 == 1 {
        0
    } else {
        1 + twos(m / 2)
    }
}

/// `m` with every factor 2 divided out.
pub open spec fn odd_part(m: nat) -> nat
    decreases m,
{
    if m == 0 || m % 2 == 1 {
        m
    } else {
        odd_part(m / 2)
    }
}

/// Whether `n` is a strong probable prime to base `a`: with `n - 1 = d * 2^s` and
/// `d` odd, either `a^d = 1` or `a^(d * 2^i) = -1` modulo `n` for some `i < s`.
pub open spec fn strong_probable_prime(n: nat, a: nat) -> bool {
    let d = odd_part((n - 1) as nat);
    ||| pow(a as int, d) % (n as int) == 1
    ||| exists|i: nat|
        i < twos((n - 1) as nat) && #[trigger] pow(a as int, d * pow(2, i) as nat) % (n as int) == n
            - 1
}

/// Whether `n` passes the strong probable-prime test to every base of [`MR_BASES`].
pub open spec fn probable_prime(n: nat) -> bool {
    if n <= 3 {
        n >= 2
    } else {
        forall|k: int|
            0 <= k < 16 && (#[trigger] MR_BASES@[k]) < n ==> strong_probable_prime(
                n,
                MR_BASES@[k] as nat,
            )
    }
}

proof fn lemma_square_of_power(a: int, e: nat, n: int)
    requires
        n > 0,
    ensures
        ((pow(a, e) % n) * (pow(a, e) % n)) % n == pow(a, 2 * e) % n,
{
    lemma_mul_mod_noop(pow(a, e), pow(a, e), n);
    lemma_pow_adds(a, e, e);
}

/// One base of the strong probable-prime test.
fn passes_base(n: u128, d: u128, s: u128, base: u32) -> (r: bool)
    requires
        n > 3,
        n % 2 == 1,
        d == odd_part((n - 1) as nat),
        s == twos((n - 1) as nat),
    ensures
        r == strong_probable_prime(n as nat, base as nat),
{
    let a: u128 = base as u128;
    let mut x: u128 = pow_mod_128(a, n, d);
    proof {
        lemma_pow0(2);
        assert(d * pow(2, 0) == d);
    }
    if x == 1 {
        return true;
    }
    if s == 0 {
        return false;
    }
    let mut i: u128 = 0;
    while i < s
        invariant
            n > 3,
            n % 2 == 1,
            i < s,
            a == base,
            d == odd_part((n - 1) as nat),
            s == twos((n - 1) as nat),
            pow(a as int, d as nat) % (n as int) != 1,
            x == pow(a as int, d as nat * pow(2, i as nat) as nat) % (n as int),
            forall|j: nat|
                j < i ==> #[trigger] pow(a as int, d as nat * pow(2, j) as nat) % (n as int) != n
                    - 1,
        decreases s - i,
    {
        if x == n - 1 {
            return true;
        }
        if i + 1 == s {
            assert(forall|j: nat|
                j < s ==> #[trigger] pow(a as int, d as nat * pow(2, j) as nat) % (n as int) != n
                    - 1);
            return false;
        }
        proof {
            let e = d as nat * pow(2, i as nat) as nat;
            lemma_pow_positive(2, i as nat);
            lemma_square_of_power(a as int, e, n as int);
            lemma_pow_adds(2, 1, i as nat);
            lemma_pow1(2);
            assert(2 * e == d as nat * pow(2, (i + 1) as nat) as nat) by (nonlinear_arith)
                requires
                    e == d as nat * pow(2, i as nat) as nat,
                    pow(2, (i + 1) as nat) == 2 * pow(2, i as nat),
                    pow(2, i as nat) > 0,
            ;
        }
        x = square_mod_128(x, n);
        i = i + 1;
    }
    false
}

/// The strong probable-prime test to the bases of [`MR_BASES`].
///
/// Modular arithmetic needs an odd modulus: of the even numbers only 0 and 2 can be
/// asked about.
pub fn miller_rabin(n: u128) -> (r: bool)
    requires
        n % 2 == 1 || n <= 3,
    ensures
        r == probable_prime(n as nat),
{
    if n <= 3 {
        return n >= 2;
    }
    let mut d: u128 = n - 1;
    let mut s: u128 = 0;
    while d % 2 == 0
        invariant
            n > 3,
            n % 2 == 1,
            0 < d,
            s + d <= n - 1,
            odd_part(d as nat) == odd_part((n - 1) as nat),
            s + twos(d as nat) == twos((n - 1) as nat),
        decreases d,
    {
        d = d / 2;
        s = s + 1;
    }
    let mut k: usize = 0;
    while k < 16
        invariant
            n > 3,
            n % 2 == 1,
            k <= 16,
            d == odd_part((n - 1) as nat),
            s == twos((n - 1) as nat),
            forall|j: int|
                0 <= j < k && (#[trigger] MR_BASES@[j]) < n ==> strong_probable_prime(
                    n as nat,
                    MR_BASES@[j] as nat,
                ),
        decreases 16 - k,
    {
        let base: u32 = MR_BASES[k];
        if (base as u128) < n && !passes_base(n, d, s, base) {
            assert(MR_BASES@[k as int] == base);
            return false;
        }
        k = k + 1;
    }
    true
}

/// How far an odd candidate is from 3, going up by 2 around the 128-bit range.
pub open spec fn distance_to_three(c: u128) -> nat {
    if c <= 3 {
        (3 - c) as nat
    } else {
        (u128::MAX + 4 - c) as nat
    }
}

/// `c + 2` in the 128-bit range, for an odd `c`.
pub open spec fn next_odd(c: u128) -> u128 {
    if c == u128::MAX {
        1
    } else {
        (c + 2) as u128
    }
}

/// The first probable prime at or after the odd number `c`, going up by 2 around
/// the 128-bit range.
pub open spec fn next_probable_prime(c: u128) -> u128
    decreases distance_to_three(c),
    when c % 2 == 1
{
    if probable_prime(c as nat) {
        c
    } else {
        next_probable_prime(next_odd(c))
    }
}

/// The bytes that a delay proof commits to: challenge, output and delay.
pub open spec fn transcript(challenge: Seq<u8>, output: Seq<u8>, delay: u32) -> Seq<u8> {
    challenge + output + bytes::be_bytes(delay as nat, 4)
}

/// The challenge prime of a transcript: the first probable prime at or after the
/// number in the first half of its SHA-256 digest.
pub open spec fn challenge_prime(challenge: Seq<u8>, output: Seq<u8>, delay: u32) -> u128 {
    let seed = bytes::be_nat(
        hash::sha256_of(transcript(challenge, output, delay)).take(16),
    ) as u128;
    next_probable_prime(
        if seed % 2 == 0 {
            (seed + 1) as u128
        } else {
            seed
        },
    )
}

/// The equation that the verifier checks, on the numbers themselves: `x` lies
/// strictly between 1 and `n - 1`, and `y = pi^l * x^(2^delay mod l) (mod n)`.
pub open spec fn delay_equation(n: nat, x: nat, y: nat, pi: nat, l: nat, delay: nat) -> bool {
    let r = (pow(2, delay) % (l as int)) as nat;
    &&& 1 < x < n - 1
    &&& y == (pow(pi as int, l) * pow(x as int, r)) % (n as int)
}

/// Whether `proof` is accepted for the claim `output = challenge^(2^delay) mod N`.
pub open spec fn vdf_accepts(
    challenge: Seq<u8>,
    delay: u32,
    output: Seq<u8>,
    witness: Seq<u8>,
) -> bool {
    let n = bytes::be_nat(MODULUS@);
    delay_equation(
        n,
        bytes::be_nat(challenge) % n,
        bytes::be_nat(output) % n,
        bytes::be_nat(witness) % n,
        challenge_prime(challenge, output, delay) as nat,
        delay as nat,
    )
}

/// An honest proof is accepted: whenever the output is congruent to `x^(2^T)` and
/// the witness to `x^(2^T / l)` modulo `N`, for a challenge `x` in the domain and
/// the challenge prime `l` of the transcript, the verifier accepts.
pub proof fn law_honest_proof_is_accepted(
    challenge: Seq<u8>,
    delay: u32,
    output: Seq<u8>,
    witness: Seq<u8>,
)
    requires
        ({
            let n = bytes::be_nat(MODULUS@);
            let x = bytes::be_nat(challenge) % n;
            let l = challenge_prime(challenge, output, delay);
            &&& 1 < x < n - 1
            &&& bytes::be_nat(output) as int % n as int == pow(x as int, pow(2, delay as nat) as nat)
                % n as int
            &&& bytes::be_nat(witness) as int % n as int == pow(
                x as int,
                (pow(2, delay as nat) / l as int) as nat,
            ) % n as int
        }),
    ensures
        vdf_accepts(challenge, delay, output, witness),
{
    let n = bytes::be_nat(MODULUS@);
    let x = bytes::be_nat(challenge) % n;
    let l = challenge_prime(challenge, output, delay);
    lemma_modulus();
    lemma_challenge_prime(challenge, output, delay);
    let power = pow(2, delay as nat);
    let q = power / l as int;
    let r = power % l as int;
    lemma_pow_positive(2, delay as nat);
    lemma_fundamental_div_mod(power, l as int);
    lemma_div_pos_is_pos(power, l as int);
    let root = pow(x as int, q as nat);
    // (x^q mod n)^l = x^(q * l), modulo n
    lemma_pow_mod_noop(root, l as nat, n as int);
    lemma_pow_multiplies(x as int, q as nat, l as nat);
    // x^(q * l) * x^r = x^(2^T)
    lemma_mul_is_commutative(q, l as int);
    lemma_mul_nonnegative(q, l as int);
    lemma_pow_adds(x as int, (q * l) as nat, r as nat);
    let pi = bytes::be_nat(witness) % n;
    lemma_mul_mod_noop_left(pow(pi as int, l as nat), pow(x as int, r as nat), n as int);
    lemma_mul_mod_noop_left(pow(root, l as nat), pow(x as int, r as nat), n as int);
}

/// No proof is accepted for a degenerate challenge, one congruent to 0, 1 or -1.
pub proof fn law_degenerate_challenge_is_rejected(
    challenge: Seq<u8>,
    delay: u32,
    output: Seq<u8>,
    witness: Seq<u8>,
)
    requires
        ({
            let n = bytes::be_nat(MODULUS@);
            let x = bytes::be_nat(challenge) % n;
            x == 0 || x == 1 || x == n - 1
        }),
    ensures
        !vdf_accepts(challenge, delay, output, witness),
{
}

/// The challenge prime is an odd probable prime.
pub proof fn lemma_challenge_prime(challenge: Seq<u8>, output: Seq<u8>, delay: u32)
    ensures
        challenge_prime(challenge, output, delay) % 2 == 1,
        challenge_prime(challenge, output, delay) >= 3,
        probable_prime(challenge_prime(challenge, output, delay) as nat),
{
    let seed = bytes::be_nat(
        hash::sha256_of(transcript(challenge, output, delay)).take(16),
    ) as u128;
    lemma_next_probable_prime(
        if seed % 2 == 0 {
            (seed + 1) as u128
        } else {
            seed
        },
    );
}

/// A probable prime found from an odd number is odd and at least 3.
pub proof fn lemma_next_probable_prime(c: u128)
    requires
        c % 2 == 1,
    ensures
        next_probable_prime(c) % 2 == 1,
        next_probable_prime(c) >= 3,
        probable_prime(next_probable_prime(c) as nat),
    decreases distance_to_three(c),
{
    if !probable_prime(c as nat) {
        lemma_next_probable_prime(next_odd(c));
    }
}

/// Derives the challenge prime of a transcript.
pub fn derive_challenge(challenge: &[u8; 128], output: &[u8; 128], delay: u32) -> (r: u128)
    ensures
        r == challenge_prime(challenge@, output@, delay),
        r % 2 == 1,
        r >= 3,
{
    let mut message: Vec<u8> = Vec::with_capacity(260);
    bytes::append(&mut message, challenge);
    bytes::append(&mut message, output);
    bytes::append(&mut message, &bytes::write_be([0u8; 4], delay as u128));
    assert(message@ =~= transcript(challenge@, output@, delay));
    let digest: [u8; 32] = hash::sha256(message.as_slice());
    let head: [u8; 16] = bytes::slice_at([0u8; 16], &digest, 0);
    let mut candidate: u128 = bytes::read_u128(&head);
    if candidate % 2 == 0 {
        candidate = candidate + 1;
    }
    let ghost start = candidate;
    while !miller_rabin(candidate)
        invariant
            start % 2 == 1,
            candidate % 2 == 1,
            next_probable_prime(candidate) == next_probable_prime(start),
        decreases distance_to_three(candidate),
    {
        if candidate == u128::MAX {
            candidate = 1;
        } else {
            candidate = candidate + 2;
        }
    }
    candidate
}

/// Widens a 128-bit number to 128 big-endian bytes.
fn u128_to_u1024(v: u128) -> (r: [u8; 128])
    ensures
        bytes::be_nat(r@) == v,
{
    let r = bytes::write_be([0u8; 128], v);
    proof {
        bytes::lemma_pow_256_16();
        lemma_pow_increases(256, 16, 128);
        bytes::lemma_be_bytes_round_trip(v as nat, 128);
    }
    r
}

/// Verifies a Wesolowski proof that `output = challenge^(2^delay) mod N`.
///
/// All numbers are big-endian. The challenge is reduced modulo `N` and must land
/// strictly between 1 and `N - 1`; `output` and `witness` are reduced modulo `N`.
/// The challenge prime is derived from the bytes as passed in.
pub fn verify_vdf(
    challenge: &[u8; 128],
    delay: u32,
    output: &[u8; 128],
    witness: &[u8; 128],
) -> (r: Result<(), Error>)
    ensures
        r == (if vdf_accepts(challenge@, delay, output@, witness@) {
            Ok::<(), Error>(())
        } else {
            Err::<(), Error>(Error::InvalidVdfProof)
        }),
{
    let n: [u8; 128] = MODULUS;
    proof {
        lemma_modulus();
        bytes::lemma_be_nat_bound(n@);
    }
    let ghost modulus = bytes::be_nat(n@);
    let one = u128_to_u1024(1);
    let x = rem_1024(challenge, &n);
    let top = wrapping_sub_1024(&n, &one);
    proof {
        lemma_small_mod((modulus - 1) as nat, pow(256, 128) as nat);
    }
    if bytes::at_most(&x, &one) || bytes::at_most(&top, &x) {
        return Err(Error::InvalidVdfProof);
    }
    let y = rem_1024(output, &n);
    let pi = rem_1024(witness, &n);
    let ell: u128 = derive_challenge(challenge, output, delay);
    let r: u128 = pow_mod_128(2, ell, delay as u128);
    let pi_pow = pow_mod_1024(&pi, &u128_to_u1024(ell), &n);
    let x_pow = pow_mod_1024(&x, &u128_to_u1024(r), &n);
    let rhs = mul_mod_1024(&pi_pow, &x_pow, &n);
    proof {
        lemma_mul_mod_noop(
            pow(bytes::be_nat(pi@) as int, ell as nat),
            pow(bytes::be_nat(x@) as int, r as nat),
            modulus as int,
        );
    }
    if bytes::at_most(&rhs, &y) && bytes::at_most(&y, &rhs) {
        Ok(())
    } else {
        Err(Error::InvalidVdfProof)
    }
}

/// An accepted proof is sound, and a sound proof is accepted, for every delay: with `N` the
/// modulus and `l` the challenge prime of the transcript, the challenge is congruent to
/// none of 0, 1 and -1, and the output to `witness^l * challenge^(2^delay mod l)`.
pub proof fn law_proof_is_accepted_when_its_equation_holds(
    challenge: Seq<u8>,
    delay: u32,
    output: Seq<u8>,
    witness: Seq<u8>,
)
    ensures
        vdf_accepts(challenge, delay, output, witness) <==> ({
            let n = bytes::be_nat(MODULUS@) as int;
            let x = bytes::be_nat(challenge) as int;
            let l = challenge_prime(challenge, output, delay) as int;
            let r = pow(2, delay as nat) % l;
            let claimed = pow(bytes::be_nat(witness) as int, l as nat) * pow(x, r as nat);
            &&& x % n != 0
            &&& x % n != 1
            &&& x % n != n - 1
            &&& (bytes::be_nat(output) - claimed) % n == 0
        }),
{
    lemma_modulus();
    let n = bytes::be_nat(MODULUS@) as int;
    let x = bytes::be_nat(challenge) as int;
    let w = bytes::be_nat(witness) as int;
    let y = bytes::be_nat(output) as int;
    let l = challenge_prime(challenge, output, delay) as int;
    lemma_challenge_prime(challenge, output, delay);
    let r = pow(2, delay as nat) % l;
    lemma_pow_mod_noop(w, l as nat, n);
    lemma_pow_mod_noop(x, r as nat, n);
    lemma_mul_mod_noop(pow(w, l as nat), pow(x, r as nat), n);
    lemma_mul_mod_noop(pow(w % n, l as nat), pow(x % n, r as nat), n);
    let claimed = pow(w, l as nat) * pow(x, r as nat);
    lemma_mod_equivalence(y, claimed, n);
    lemma_mod_bound(x, n);
}

/// A witness vouches for one output: two proofs with the same challenge, delay, witness
/// and challenge prime are both accepted only if their outputs are congruent modulo `N`.
pub proof fn law_witness_vouches_for_one_output(
    challenge: Seq<u8>,
    delay: u32,
    output: Seq<u8>,
    other: Seq<u8>,
    witness: Seq<u8>,
)
    requires
        vdf_accepts(challenge, delay, output, witness),
        vdf_accepts(challenge, delay, other, witness),
        challenge_prime(challenge, output, delay) == challenge_prime(challenge, other, delay),
    ensures
        (bytes::be_nat(output) - bytes::be_nat(other)) % (bytes::be_nat(MODULUS@) as int) == 0,
{
    lemma_modulus();
    let n = bytes::be_nat(MODULUS@) as int;
    let l = challenge_prime(challenge, output, delay) as int;
    let r = pow(2, delay as nat) % l;
    let claimed = pow(bytes::be_nat(witness) as int, l as nat) * pow(
        bytes::be_nat(challenge) as int,
        r as nat,
    );
    law_proof_is_accepted_when_its_equation_holds(challenge, delay, output, witness);
    law_proof_is_accepted_when_its_equation_holds(challenge, delay, other, witness);
    lemma_mod_equivalence(bytes::be_nat(output) as int, claimed, n);
    lemma_mod_equivalence(bytes::be_nat(other) as int, claimed, n);
    lemma_mod_equivalence(bytes::be_nat(output) as int, bytes::be_nat(other) as int, n);
}

/// The modulus is an odd number of 1024 bits.
pub proof fn law_modulus_is_odd()
    ensures
        bytes::be_nat(MODULUS@) % 2 == 1,
        bytes::be_nat(MODULUS@) > 3,
        MODULUS@.len() == 128,
        MODULUS@[0] >= 128,
{
    lemma_modulus();
}

} // verus!
