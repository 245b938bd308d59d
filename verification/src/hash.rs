//! The hash functions: BLAKE2b over bytes and Poseidon over field elements.
use decaf377::FieldExt;
use vstd::prelude::*;

use crate::bytes::le_nat;
use crate::field::{fq_modulus, Fq};

verus! {

/// The BLAKE2b hash, of `hash_length` bytes and with the given personalization, of `input`: what
/// `blake2b_simd::Params` with these two parameters gives.
pub uninterp spec fn blake2b_hash(
    hash_length: nat,
    personalization: Seq<u8>,
    input: Seq<u8>,
) -> Seq<u8>;

/// The Poseidon hash of five field elements under a domain separator: what
/// `poseidon377::hash_5` gives.
pub uninterp spec fn poseidon377_hash_5(
    domain_separator: nat,
    a: nat,
    b: nat,
    c: nat,
    d: nat,
    e: nat,
) -> nat;

/// Calls `blake2b_simd::Params::to_state`, after setting the hash length and the personalization,
/// then `State::update` and `State::finalize`.
///
/// The contract names the hash and claims that it has the length that was asked for. A length
/// outside 1 to 64 and a personalization of more than 16 bytes make the builder panic. With
/// length 64 and no personalization this is `blake2b_simd::blake2b`.
#[verifier::external_body]
pub(crate) fn blake2b(hash_length: usize, personalization: &[u8], input: &[u8]) -> (hash: Vec<u8>)
    requires
        1 <= hash_length <= 64,
        personalization@.len() <= 16,
    ensures
        hash@ == blake2b_hash(hash_length as nat, personalization@, input@),
        hash@.len() == hash_length,
{
    let mut params = blake2b_simd::Params::new();
    params.hash_length(hash_length).personal(personalization);
    params.to_state().update(input).finalize().as_bytes().to_vec()
}

/// Calls `poseidon377::hash_5`.
///
/// The contract names the hash and claims that it is a field element.
#[verifier::external_body]
fn hash_5(domain_separator: [u8; 32], values: [[u8; 32]; 5]) -> (hash: [u8; 32])
    requires
        le_nat(domain_separator@) < fq_modulus(),
        forall|i: int| 0 <= i < 5 ==> le_nat(#[trigger] values@[i]@) < fq_modulus(),
    ensures
        le_nat(hash@) == poseidon377_hash_5(
            le_nat(domain_separator@),
            le_nat(values@[0]@),
            le_nat(values@[1]@),
            le_nat(values@[2]@),
            le_nat(values@[3]@),
            le_nat(values@[4]@),
        ),
        le_nat(hash@) < fq_modulus(),
{
    let separator = decaf377::Fq::from_bytes(domain_separator).unwrap();
    let [a, b, c, d, e] = values.map(|x| decaf377::Fq::from_bytes(x).unwrap());
    poseidon377::hash_5(&separator, (a, b, c, d, e)).to_bytes()
}

/// The Poseidon hash of five field elements under a domain separator.
pub fn poseidon_hash_5(domain_separator: &Fq, values: (Fq, Fq, Fq, Fq, Fq)) -> (hash: Fq)
    ensures
        hash.wf(),
        hash@ == poseidon377_hash_5(
            domain_separator@,
            values.0@,
            values.1@,
            values.2@,
            values.3@,
            values.4@,
        ),
{
    proof {
        use_type_invariant(domain_separator);
        use_type_invariant(&values.0);
        use_type_invariant(&values.1);
        use_type_invariant(&values.2);
        use_type_invariant(&values.3);
        use_type_invariant(&values.4);
    }
    let bytes: [[u8; 32]; 5] = [
        values.0.to_bytes(),
        values.1.to_bytes(),
        values.2.to_bytes(),
        values.3.to_bytes(),
        values.4.to_bytes(),
    ];
    match Fq::from_bytes(hash_5(domain_separator.to_bytes(), bytes)) {
        Ok(hash) => hash,
        Err(_) => vstd::pervasive::unreached(),
    }
}

} // verus!
