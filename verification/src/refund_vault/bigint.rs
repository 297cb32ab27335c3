//! Modular arithmetic of the delay function, computed by `crypto_bigint`.
//!
//! 128-bit numbers travel as `u128`, 1024-bit numbers as 128 big-endian bytes.

use crate::bytes;
use crypto_bigint::modular::runtime_mod::{DynResidue, DynResidueParams};
use crypto_bigint::{Encoding, NonZero, U1024, U128};
use vstd::arithmetic::power::*;
use vstd::prelude::*;

verus! {

/// `DynResidue::pow` on 128-bit residues.
///
/// Trusted: the result is `base^exp mod modulus`, reduced. The modulus has to be
/// odd, or `DynResidueParams::new` panics, and above 1, where the Montgomery
/// parameters are reduced.
#[verifier::external_body]
pub(crate) fn pow_mod_128(base: u128, modulus: u128, exp: u128) -> (r: u128)
    requires
        modulus % 2 == 1,
        modulus > 1,
    ensures
        r == pow(base as int, exp as nat) % (modulus as int),
{
    let params = DynResidueParams::new(&U128::from_u128(modulus));
    let residue = DynResidue::new(&U128::from_u128(base), params);
    u128::from(residue.pow(&U128::from_u128(exp)).retrieve())
}

/// `DynResidue::square` on 128-bit residues.
///
/// Trusted: the result is `base^2 mod modulus`, reduced, for an odd modulus above 1.
#[verifier::external_body]
pub(crate) fn square_mod_128(base: u128, modulus: u128) -> (r: u128)
    requires
        modulus % 2 == 1,
        modulus > 1,
    ensures
        r == (base * base) % (modulus as int),
{
    let params = DynResidueParams::new(&U128::from_u128(modulus));
    u128::from(DynResidue::new(&U128::from_u128(base), params).square().retrieve())
}

/// `Uint::rem` on 1024-bit numbers.
///
/// Trusted: the result is `value mod modulus`. A zero modulus has no `NonZero`.
#[verifier::external_body]
pub(crate) fn rem_1024(value: &[u8; 128], modulus: &[u8; 128]) -> (r: [u8; 128])
    requires
        bytes::be_nat(modulus@) > 0,
    ensures
        bytes::be_nat(r@) == bytes::be_nat(value@) % bytes::be_nat(modulus@),
{
    let n = NonZero::new(U1024::from_be_slice(modulus)).unwrap();
    U1024::from_be_slice(value).rem(&n).to_be_bytes()
}

/// `Uint::wrapping_sub` on 1024-bit numbers.
///
/// Trusted: the result is `a - b`, wrapped around at `2^1024`.
#[verifier::external_body]
pub(crate) fn wrapping_sub_1024(a: &[u8; 128], b: &[u8; 128]) -> (r: [u8; 128])
    ensures
        bytes::be_nat(r@) == (bytes::be_nat(a@) - bytes::be_nat(b@)) % pow(256, 128),
{
    U1024::from_be_slice(a).wrapping_sub(&U1024::from_be_slice(b)).to_be_bytes()
}

/// `DynResidue::pow` on 1024-bit residues.
///
/// Trusted: the result is `base^exp mod modulus`, reduced, for an odd modulus above 1.
#[verifier::external_body]
pub(crate) fn pow_mod_1024(base: &[u8; 128], exp: &[u8; 128], modulus: &[u8; 128]) -> (r: [u8; 128])
    requires
        bytes::be_nat(modulus@) % 2 == 1,
        bytes::be_nat(modulus@) > 1,
    ensures
        bytes::be_nat(r@) == pow(bytes::be_nat(base@) as int, bytes::be_nat(exp@)) % (bytes::be_nat(modulus@) as int),
{
    let params = DynResidueParams::new(&U1024::from_be_slice(modulus));
    let residue = DynResidue::new(&U1024::from_be_slice(base), params);
    residue.pow(&U1024::from_be_slice(exp)).retrieve().to_be_bytes()
}

/// `DynResidue::mul` on 1024-bit residues.
///
/// Trusted: the result is `a * b mod modulus`, reduced, for an odd modulus above 1.
#[verifier::external_body]
pub(crate) fn mul_mod_1024(a: &[u8; 128], b: &[u8; 128], modulus: &[u8; 128]) -> (r: [u8; 128])
    requires
        bytes::be_nat(modulus@) % 2 == 1,
        bytes::be_nat(modulus@) > 1,
    ensures
        bytes::be_nat(r@) == (bytes::be_nat(a@) * bytes::be_nat(b@)) % bytes::be_nat(modulus@),
{
    let params = DynResidueParams::new(&U1024::from_be_slice(modulus));
    let left = DynResidue::new(&U1024::from_be_slice(a), params);
    let right = DynResidue::new(&U1024::from_be_slice(b), params);
    left.mul(&right).retrieve().to_be_bytes()
}

} // verus!
