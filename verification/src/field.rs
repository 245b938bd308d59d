//! The field `Fq`: the base field of decaf377, which is the scalar field of BLS12-377.
use ark_ff::{PrimeField, UniformRand};
use decaf377::FieldExt;
use vstd::arithmetic::power::{lemma_pow_adds, pow};
use vstd::prelude::*;

use crate::bytes::{le_bytes, le_nat, lemma_le_nat_injective, lemma_pow_256_8, lemma_write_of_read};

verus! {

/// The number of elements of `Fq`.
pub open spec fn fq_modulus() -> nat {
    8444461749428370424248824938781546531375899335154063827935233455917409239041nat
}

/// Why 32 bytes were not taken as a field element, a scalar or a group element.
#[derive(Clone, Copy, Debug, PartialEq, Eq)]
pub struct InvalidEncoding;

/// An error of `decaf377`.
#[verifier::external_type_specification]
#[verifier::external_body]
pub struct ExDecafEncodingError(decaf377::EncodingError);

/// The random number generator of the operating system.
#[verifier::external_type_specification]
#[verifier::external_body]
pub struct ExOsRng(rand_core::OsRng);

/// Calls `decaf377::FieldExt::from_bytes` for `Fq`, and writes the element out again with
/// `to_bytes`.
///
/// The contract claims that 32 bytes are taken exactly if they write, least significant byte
/// first, a number below the modulus, and that the element is written as the same bytes.
#[verifier::external_body]
fn fq_from_bytes(bytes: [u8; 32]) -> (result: Result<[u8; 32], decaf377::EncodingError>)
    ensures
        result is Ok <==> le_nat(bytes@) < fq_modulus(),
        result matches Ok(canonical) ==> canonical@ == bytes@,
{
    decaf377::Fq::from_bytes(bytes).map(|x| x.to_bytes())
}

/// Calls `ark_ff::PrimeField::from_le_bytes_mod_order` for `Fq`.
///
/// The contract claims that the result is the number that the bytes write, least significant
/// byte first, reduced modulo the number of field elements.
#[verifier::external_body]
fn fq_from_le_bytes_mod_order(bytes: &[u8]) -> (result: [u8; 32])
    ensures
        le_nat(result@) == le_nat(bytes@) % fq_modulus(),
{
    decaf377::Fq::from_le_bytes_mod_order(bytes).to_bytes()
}

/// Calls the `From<u64>` of `Fq`.
///
/// The contract claims that the field element is the number itself.
#[verifier::external_body]
fn fq_from_u64(x: u64) -> (result: [u8; 32])
    ensures
        le_nat(result@) == x,
{
    decaf377::Fq::from(x).to_bytes()
}

/// Calls `ark_ff::UniformRand::rand` for `Fq`.
///
/// The contract claims only that the bytes are those of some field element: which one is chance.
#[verifier::external_body]
fn fq_rand(rng: &mut rand_core::OsRng) -> (result: [u8; 32])
    ensures
        le_nat(result@) < fq_modulus(),
{
    decaf377::Fq::rand(rng).to_bytes()
}

/// An element of the field, held as its 32 little-endian bytes.
#[derive(Clone, Copy, Debug, PartialEq, Eq, Hash)]
pub struct Fq {
    bytes: [u8; 32],
}

impl View for Fq {
    type V = nat;

    closed spec fn view(&self) -> nat {
        le_nat(self.bytes@)
    }
}

impl Fq {
    /// The element is a number below the modulus.
    #[verifier::type_invariant]
    pub open spec fn wf(self) -> bool {
        self@ < fq_modulus()
    }

    /// The element that 32 little-endian bytes write, unless their number is not below the
    /// modulus.
    pub fn from_bytes(bytes: [u8; 32]) -> (result: Result<Fq, InvalidEncoding>)
        ensures
            result is Ok <==> le_nat(bytes@) < fq_modulus(),
            result matches Ok(x) ==> x.wf() && x@ == le_nat(bytes@),
    {
        match fq_from_bytes(bytes) {
            Ok(canonical) => Ok(Fq { bytes: canonical }),
            Err(_) => Err(InvalidEncoding),
        }
    }

    /// The element that the bytes, least significant first, write modulo the modulus.
    pub fn from_le_bytes_mod_order(bytes: &[u8]) -> (x: Fq)
        ensures
            x.wf(),
            x@ == le_nat(bytes@) % fq_modulus(),
    {
        Fq { bytes: fq_from_le_bytes_mod_order(bytes) }
    }

    /// The number `x` as a field element.
    pub fn from_u64(x: u64) -> (result: Fq)
        ensures
            result.wf(),
            result@ == x,
    {
        Fq { bytes: fq_from_u64(x) }
    }

    /// A field element drawn at random.
    pub fn rand(rng: &mut rand_core::OsRng) -> (x: Fq)
        ensures
            x.wf(),
    {
        Fq { bytes: fq_rand(rng) }
    }

    /// The 32 little-endian bytes of the element.
    pub fn to_bytes(&self) -> (bytes: [u8; 32])
        ensures
            bytes@ == le_bytes(self@, 32),
            le_nat(bytes@) == self@,
    {
        proof {
            lemma_write_of_read(self.bytes@);
        }
        self.bytes
    }
}

/// Field elements are told apart by their numbers.
pub proof fn lemma_fq_view_injective(a: Fq, b: Fq)
    requires
        a@ == b@,
    ensures
        a == b,
{
    lemma_le_nat_injective(a.bytes@, b.bytes@);
    assert(a.bytes =~= b.bytes);
}

/// Every number below the modulus fits in 32 bytes.
pub proof fn lemma_fq_modulus_fits()
    ensures
        fq_modulus() < pow(256, 32),
{
    let p8 = pow(256, 8);
    let p16 = pow(256, 16);
    lemma_pow_256_8();
    lemma_pow_adds(256, 8, 8);
    lemma_pow_adds(256, 16, 16);
    assert(p8 * p8 == 0x1_0000_0000_0000_0000_0000_0000_0000_0000int) by (nonlinear_arith)
        requires
            p8 == 0x1_0000_0000_0000_0000int,
    ;
    assert(p16 * p16 > fq_modulus()) by (nonlinear_arith)
        requires
            p16 == 0x1_0000_0000_0000_0000_0000_0000_0000_0000int,
    ;
}

} // verus!
