//! Big-endian numbers held in byte strings.

use vstd::prelude::*;
use vstd::arithmetic::power::*;

verus! {

/// The number that `s` spells in base 256, most significant byte first.
pub open spec fn be_nat(s: Seq<u8>) -> nat
    decreases s.len(),
{
    if s.len() == 0 {
        0
    } else {
        be_nat(s.drop_last()) * 256 + s.last() as nat
    }
}

/// The low `len` base-256 digits of `v`, most significant byte first.
pub open spec fn be_bytes(v: nat, len: nat) -> Seq<u8>
    decreases len,
{
    if len == 0 {
        Seq::empty()
    } else {
        be_bytes(v / 256, (len - 1) as nat).push((v % 256) as u8)
    }
}

/// A string of `n` zero bytes.
pub open spec fn zeros(n: nat) -> Seq<u8> {
    Seq::new(n, |i: int| 0u8)
}

/// A string of `n` bytes spells a number below `256^n`.
pub proof fn lemma_be_nat_bound(s: Seq<u8>)
    ensures
        be_nat(s) < pow(256, s.len()),
    decreases s.len(),
{
    reveal(pow);
    if s.len() > 0 {
        lemma_be_nat_bound(s.drop_last());
        assert(pow(256, s.len()) == 256 * pow(256, (s.len() - 1) as nat));
    }
}

/// Writing a number that fits and reading it back gives the number.
pub proof fn lemma_be_bytes_round_trip(v: nat, len: nat)
    requires
        v < pow(256, len),
    ensures
        be_bytes(v, len).len() == len,
        be_nat(be_bytes(v, len)) == v,
    decreases len,
{
    reveal(pow);
    if len > 0 {
        assert(pow(256, len) == 256 * pow(256, (len - 1) as nat));
        lemma_be_bytes_round_trip(v / 256, (len - 1) as nat);
        assert(be_bytes(v, len).drop_last() =~= be_bytes(v / 256, (len - 1) as nat));
    }
}

/// `be_bytes` always writes `len` bytes.
pub proof fn lemma_be_bytes_len(v: nat, len: nat)
    ensures
        be_bytes(v, len).len() == len,
    decreases len,
{
    if len > 0 {
        lemma_be_bytes_len(v / 256, (len - 1) as nat);
    }
}

/// A number that fits `len` bytes is written with zeros in front of them.
pub proof fn lemma_be_bytes_leading_zeros(v: nat, more: nat, len: nat)
    requires
        v < pow(256, len),
    ensures
        be_bytes(v, more + len) == zeros(more) + be_bytes(v, len),
    decreases more + len,
{
    reveal(pow);
    if len > 0 {
        assert(pow(256, len) == 256 * pow(256, (len - 1) as nat));
        lemma_be_bytes_leading_zeros(v / 256, more, (len - 1) as nat);
    } else if more > 0 {
        lemma_be_bytes_leading_zeros(v, (more - 1) as nat, len);
    }
    assert(be_bytes(v, more + len) =~= zeros(more) + be_bytes(v, len));
}

/// Sixteen bytes hold every 128-bit number and no other.
pub proof fn lemma_pow_256_16()
    ensures
        pow(256, 16) == u128::MAX + 1,
{
    reveal(pow);
    reveal_with_fuel(pow, 17);
}

/// Eight bytes hold every 64-bit number and no other.
pub proof fn lemma_pow_256_8()
    ensures
        pow(256, 8) == u64::MAX + 1,
{
    reveal(pow);
    reveal_with_fuel(pow, 9);
}

/// Leading zeros do not change a number.
pub proof fn lemma_be_nat_leading_zeros(n: nat, s: Seq<u8>)
    ensures
        be_nat(zeros(n) + s) == be_nat(s),
    decreases n + s.len(),
{
    let t = zeros(n) + s;
    if s.len() > 0 {
        lemma_be_nat_leading_zeros(n, s.drop_last());
        assert(t.drop_last() =~= zeros(n) + s.drop_last());
        assert(t.last() == s.last());
    } else if n > 0 {
        lemma_be_nat_leading_zeros((n - 1) as nat, s);
        assert(t.drop_last() =~= zeros((n - 1) as nat) + s);
        assert(t.last() == 0);
    }
}

/// Whether the number in `a` is at most the number in `b`. For byte strings of
/// one length this is also their lexicographic order.
pub fn at_most<const N: usize>(a: &[u8; N], b: &[u8; N]) -> (r: bool)
    ensures
        r == (be_nat(a@) <= be_nat(b@)),
{
    let mut less = false;
    let mut greater = false;
    let mut i: usize = 0;
    while i < N
        invariant
            i <= N,
            less == (be_nat(a@.take(i as int)) < be_nat(b@.take(i as int))),
            greater == (be_nat(a@.take(i as int)) > be_nat(b@.take(i as int))),
        decreases N - i,
    {
        assert(a@.take(i + 1).drop_last() =~= a@.take(i as int));
        assert(b@.take(i + 1).drop_last() =~= b@.take(i as int));
        if !less && !greater {
            less = a[i] < b[i];
            greater = a[i] > b[i];
        }
        i = i + 1;
    }
    assert(a@.take(N as int) =~= a@);
    assert(b@.take(N as int) =~= b@);
    !greater
}

/// The number in sixteen bytes.
pub fn read_u128(bytes: &[u8; 16]) -> (r: u128)
    ensures
        r == be_nat(bytes@),
{
    let mut r: u128 = 0;
    let mut i: usize = 0;
    while i < 16
        invariant
            i <= 16,
            r == be_nat(bytes@.take(i as int)),
        decreases 16 - i,
    {
        proof {
            let next = bytes@.take(i + 1);
            assert(next.drop_last() =~= bytes@.take(i as int));
            lemma_be_nat_bound(next);
            lemma_pow_increases(256, (i + 1) as nat, 16);
            lemma_pow_256_16();
        }
        r = r * 256 + bytes[i] as u128;
        i = i + 1;
    }
    assert(bytes@.take(16) =~= bytes@);
    r
}

/// Appends the bytes of `part` to `out`.
pub fn append<const N: usize>(out: &mut Vec<u8>, part: &[u8; N])
    ensures
        final(out)@ == old(out)@ + part@,
{
    let mut i: usize = 0;
    while i < N
        invariant
            i <= N,
            out@ == old(out)@ + part@.take(i as int),
        decreases N - i,
    {
        out.push(part[i]);
        i = i + 1;
        assert(out@ =~= old(out)@ + part@.take(i as int));
    }
    assert(part@.take(N as int) =~= part@);
}

/// The `N` bytes of `from` that start at `at`, written over `out`.
pub fn slice_at<const N: usize, const M: usize>(out: [u8; N], from: &[u8; M], at: usize) -> (r: [u8;
    N])
    requires
        at + N <= M,
    ensures
        r@ == from@.subrange(at as int, at + N),
{
    let mut r = out;
    let mut i: usize = 0;
    while i < N
        invariant
            i <= N,
            at + N <= M,
            forall|j: int| 0 <= j < i ==> r@[j] == from@[at + j],
        decreases N - i,
    {
        r[i] = from[at + i];
        i = i + 1;
    }
    assert(r@ =~= from@.subrange(at as int, at + N));
    r
}

/// Overwrites `out` with the big-endian digits of `value`.
pub fn write_be<const N: usize>(out: [u8; N], value: u128) -> (r: [u8; N])
    ensures
        r@ == be_bytes(value as nat, N as nat),
{
    let mut r = out;
    let mut v: u128 = value;
    let mut i: usize = N;
    proof {
        lemma_be_bytes_len(value as nat, N as nat);
        assert(be_bytes(v as nat, i as nat) + r@.skip(i as int) =~= be_bytes(
            value as nat,
            N as nat,
        ));
    }
    while i > 0
        invariant
            i <= N,
            be_bytes(v as nat, i as nat) + r@.skip(i as int) == be_bytes(value as nat, N as nat),
        decreases i,
    {
        let ghost before = r@;
        let digit: u8 = (v % 256) as u8;
        proof {
            lemma_be_bytes_len(v as nat, i as nat);
            lemma_be_bytes_len(v as nat / 256, (i - 1) as nat);
        }
        i = i - 1;
        r[i] = digit;
        proof {
            assert(be_bytes(v as nat / 256, i as nat) + r@.skip(i as int) =~= be_bytes(
                v as nat,
                (i + 1) as nat,
            ) + before.skip(i + 1));
        }
        v = v / 256;
    }
    assert(be_bytes(v as nat, 0) + r@.skip(0) =~= r@);
    r
}

} // verus!
