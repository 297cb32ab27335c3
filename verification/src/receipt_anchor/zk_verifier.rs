//! Structural checks of Groth16 validity proofs.
//!
//! A proof is three group elements, a key is four and one more per public input. The
//! checks look at how many there are, how long they are and that none is all zero;
//! no pairing is computed.

use crate::error::Error;
use crate::primitives::BytesN;
use vstd::prelude::*;

verus! {

/// Shortest accepted encoding of a proof element, in bytes.
pub const MIN_ELEMENT_LEN: usize = 32;

/// A Groth16 proof: points A in G1, B in G2 and C in G1.
#[derive(Debug, PartialEq, Eq)]
pub struct ZkProof {
    pub a: Vec<u8>,
    pub b: Vec<u8>,
    pub c: Vec<u8>,
}

/// A Groth16 verifying key.
#[derive(Debug, PartialEq, Eq)]
pub struct VerifyingKey {
    pub alpha_g1: Vec<u8>,
    pub beta_g2: Vec<u8>,
    pub gamma_g2: Vec<u8>,
    pub delta_g2: Vec<u8>,
    /// One point per public input, and one more.
    pub ic: Vec<Vec<u8>>,
}

/// Whether an element is long enough and not all zero.
pub open spec fn plausible_element(bytes: Seq<u8>) -> bool {
    bytes.len() >= MIN_ELEMENT_LEN && exists|i: int| 0 <= i < bytes.len() && bytes[i] != 0
}

/// What [`verify_groth16`] answers: the key has one point per public input and one
/// more, no element of it is empty, and the three proof elements are plausible.
pub open spec fn groth16_accepts(proof: ZkProof, vk: VerifyingKey, public_inputs: nat) -> bool {
    &&& vk.ic.len() == public_inputs + 1
    &&& vk.alpha_g1.len() > 0
    &&& vk.beta_g2.len() > 0
    &&& vk.gamma_g2.len() > 0
    &&& vk.delta_g2.len() > 0
    &&& plausible_element(proof.a@)
    &&& plausible_element(proof.b@)
    &&& plausible_element(proof.c@)
}

/// What [`verify_batch_zk_proof`] answers: the batch is not empty, every proof element
/// is long enough and the first one is not all zero.
pub open spec fn batch_proof_accepts(proof: ZkProof, count: u32) -> bool {
    &&& count > 0
    &&& plausible_element(proof.a@)
    &&& proof.b.len() >= MIN_ELEMENT_LEN
    &&& proof.c.len() >= MIN_ELEMENT_LEN
}

/// Whether no byte is set.
fn all_zero(bytes: &Vec<u8>) -> (r: bool)
    ensures
        r == forall|i: int| 0 <= i < bytes.len() ==> bytes@[i] == 0,
{
    let mut i: usize = 0;
    while i < bytes.len()
        invariant
            i <= bytes.len(),
            forall|k: int| 0 <= k < i ==> bytes@[k] == 0,
        decreases bytes.len() - i,
    {
        if bytes[i] != 0 {
            assert(bytes@[i as int] != 0);
            return false;
        }
        i = i + 1;
    }
    true
}

/// Checks a proof against a verifying key and the number of public inputs.
pub fn verify_groth16(
    proof: &ZkProof,
    vk: &VerifyingKey,
    public_inputs: &Vec<BytesN<32>>,
) -> (r: Result<bool, Error>)
    ensures
        r == Ok::<bool, Error>(groth16_accepts(*proof, *vk, public_inputs@.len())),
{
    if vk.ic.len() == 0 || vk.ic.len() - 1 != public_inputs.len() {
        return Ok(false);
    }
    if vk.alpha_g1.len() == 0 || vk.beta_g2.len() == 0 || vk.gamma_g2.len() == 0
        || vk.delta_g2.len() == 0 {
        return Ok(false);
    }
    if proof.a.len() < MIN_ELEMENT_LEN || proof.b.len() < MIN_ELEMENT_LEN || proof.c.len()
        < MIN_ELEMENT_LEN {
        return Ok(false);
    }
    Ok(!all_zero(&proof.a) && !all_zero(&proof.b) && !all_zero(&proof.c))
}

/// Checks the validity proof of a batch of `count` receipts. The state root does not
/// enter the structural checks.
pub fn verify_batch_zk_proof(_state_root: &BytesN<32>, proof: &ZkProof, count: u32) -> (r: Result<
    bool,
    Error,
>)
    ensures
        r == Ok::<bool, Error>(batch_proof_accepts(*proof, count)),
{
    if count == 0 {
        return Ok(false);
    }
    if proof.a.len() < MIN_ELEMENT_LEN || proof.b.len() < MIN_ELEMENT_LEN || proof.c.len()
        < MIN_ELEMENT_LEN {
        return Ok(false);
    }
    Ok(!all_zero(&proof.a))
}

/// A validity proof is accepted exactly when the batch is not empty, each of the three
/// elements has 32 bytes or more, and a byte of the first is set.
pub proof fn law_batch_proof_is_judged_by_its_bytes(proof: ZkProof, count: u32)
    ensures
        batch_proof_accepts(proof, count) <==> {
            &&& count >= 1
            &&& proof.a@.len() >= 32
            &&& proof.b@.len() >= 32
            &&& proof.c@.len() >= 32
            &&& exists|i: int| 0 <= i < proof.a@.len() && proof.a@[i] != 0
        },
{
}

/// Every proof whose elements are long enough and start with a byte that is set is
/// accepted for every batch that is not empty, whatever else it holds: more bytes never
/// make it worse.
pub proof fn law_longer_batch_proofs_stay_accepted(
    proof: ZkProof,
    longer: ZkProof,
    count: u32,
    other: u32,
)
    requires
        batch_proof_accepts(proof, count),
        proof.a@.is_prefix_of(longer.a@),
        longer.b@.len() >= proof.b@.len(),
        longer.c@.len() >= proof.c@.len(),
        other > 0,
    ensures
        batch_proof_accepts(longer, other),
{
    let i = choose|i: int| 0 <= i < proof.a@.len() && proof.a@[i] != 0;
    assert(longer.a@[i] == proof.a@[i]);
}

/// A proof is accepted under a key exactly when the key has one point per public input and
/// one more, none of its four other points is empty, and each of the three elements has 32
/// bytes or more, one of them set.
pub proof fn law_key_proof_is_judged_by_its_bytes(proof: ZkProof, vk: VerifyingKey, inputs: nat)
    ensures
        groth16_accepts(proof, vk, inputs) <==> {
            &&& vk.ic@.len() == inputs + 1
            &&& vk.alpha_g1@.len() != 0
            &&& vk.beta_g2@.len() != 0
            &&& vk.gamma_g2@.len() != 0
            &&& vk.delta_g2@.len() != 0
            &&& proof.a@.len() >= 32
            &&& proof.b@.len() >= 32
            &&& proof.c@.len() >= 32
            &&& exists|i: int| 0 <= i < proof.a@.len() && proof.a@[i] != 0
            &&& exists|i: int| 0 <= i < proof.b@.len() && proof.b@[i] != 0
            &&& exists|i: int| 0 <= i < proof.c@.len() && proof.c@[i] != 0
        },
{
}

} // verus!
