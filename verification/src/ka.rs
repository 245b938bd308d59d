//! Key agreement on decaf377.
use vstd::prelude::*;
use vstd::std_specs::convert::TryFromSpecImpl;

use crate::bytes::{array_at, le_bytes, le_nat};
use crate::field::{fq_modulus, InvalidEncoding};
use crate::group::{
    decaf377_decodes, decaf377_mul, fr_modulus, lemma_fr_view_injective, Element, Fr,
};

verus! {

/// Why there is no shared secret, or no public key.
#[derive(Clone, Copy, Debug, PartialEq, Eq)]
pub enum Error {
    /// The bytes are not the encoding of a group element.
    InvalidPublic(Public),
    /// A slice has a length other than the 32 bytes of a public key.
    InvalidLength,
}

/// A public key: 32 bytes, which are not known to be the encoding of a group element until the
/// key is used.
#[derive(Clone, Copy, Debug, PartialEq, Eq)]
pub struct Public(pub [u8; 32]);

/// A secret that two parties have agreed on: the encoding of a group element.
#[derive(Clone, Copy, Debug, PartialEq, Eq)]
pub struct SharedSecret(pub [u8; 32]);

/// A secret key: a scalar.
#[derive(Clone, Copy, Debug, PartialEq, Eq)]
pub struct Secret(Fr);

/// What the holder of the secret key `sk` and the holder of the public key `pk` agree on: the
/// multiple of `pk` by `sk`, where `pk` is the encoding of a group element.
pub open spec fn agreement(sk: nat, pk: Seq<u8>) -> Option<Seq<u8>> {
    if decaf377_decodes(pk) {
        Some(decaf377_mul(sk, pk))
    } else {
        None
    }
}

impl TryFrom<&[u8]> for Public {
    type Error = Error;

    fn try_from(bytes: &[u8]) -> (result: Result<Public, Error>)
        ensures
            result is Ok <==> bytes@.len() == 32,
            result matches Ok(pk) ==> pk.0@ == bytes@,
            result matches Err(e) ==> e == Error::InvalidLength,
    {
        if bytes.len() != 32 {
            return Err(Error::InvalidLength);
        }
        let key: [u8; 32] = array_at::<32>(bytes, 0);
        proof {
            assert(key@ =~= bytes@);
        }
        Ok(Public(key))
    }
}

impl TryFromSpecImpl<&[u8]> for Public {
    open spec fn obeys_try_from_spec() -> bool {
        false
    }

    open spec fn try_from_spec(bytes: &[u8]) -> Result<Public, Error> {
        arbitrary()
    }
}

impl View for Secret {
    type V = nat;

    closed spec fn view(&self) -> nat {
        self.0@
    }
}

impl Secret {
    /// The key is a scalar.
    #[verifier::type_invariant]
    pub open spec fn wf(self) -> bool {
        self@ < fr_modulus()
    }

    /// The secret key that 32 little-endian bytes write, unless their number is not below the
    /// order of the group.
    pub fn from_bytes(bytes: [u8; 32]) -> (result: Result<Secret, InvalidEncoding>)
        ensures
            result is Ok <==> le_nat(bytes@) < fr_modulus(),
            result matches Ok(sk) ==> sk.wf() && sk@ == le_nat(bytes@),
    {
        match Fr::from_bytes(bytes) {
            Ok(scalar) => Ok(Secret(scalar)),
            Err(e) => Err(e),
        }
    }

    /// The 32 little-endian bytes of the key.
    pub fn to_bytes(&self) -> (bytes: [u8; 32])
        ensures
            bytes@ == le_bytes(self@, 32),
            le_nat(bytes@) == self@,
    {
        self.0.to_bytes()
    }

    /// The public key of this secret key for a diversified generator.
    ///
    /// It is a key that can be agreed with, and the two sides of an agreement come out equal:
    /// what the holder of a secret key `t` agrees on with this public key is what the holder of
    /// this secret key agrees on with the public key of `t` for the same generator.
    pub fn diversified_public(&self, diversified_generator: &Element) -> (pk: Public)
        ensures
            pk.0@ == decaf377_mul(self@, diversified_generator@),
            decaf377_decodes(pk.0@),
            le_nat(pk.0@) < fq_modulus(),
            forall|t: nat|
                t < fr_modulus() ==> #[trigger] decaf377_mul(t, pk.0@) == decaf377_mul(
                    self@,
                    decaf377_mul(t, diversified_generator@),
                ),
    {
        Public(diversified_generator.mul(&self.0).compress())
    }

    /// The secret that the holder of this key shares with the holder of `other`, unless `other` is
    /// not the encoding of a group element.
    pub fn key_agreement_with(&self, other: &Public) -> (result: Result<SharedSecret, Error>)
        ensures
            match result {
                Ok(shared) => agreement(self@, other.0@) == Some(shared.0@),
                Err(e) => agreement(self@, other.0@) is None && e == Error::InvalidPublic(*other),
            },
            result is Ok <==> decaf377_decodes(other.0@),
            result matches Ok(shared) ==> shared.0@ == decaf377_mul(self@, other.0@),
    {
        match Element::decompress(other.0) {
            Ok(p) => Ok(SharedSecret(p.mul(&self.0).compress())),
            Err(_) => Err(Error::InvalidPublic(*other)),
        }
    }
}

/// Secret keys are told apart by their numbers.
pub proof fn lemma_secret_view_injective(a: Secret, b: Secret)
    requires
        a@ == b@,
    ensures
        a == b,
{
    lemma_fr_view_injective(a.0, b.0);
}

/// There is an agreement with exactly the public keys that are encodings of group elements, and
/// it is the multiple of the public key by the secret key.
pub proof fn lemma_agreement(sk: nat, pk: Seq<u8>)
    ensures
        agreement(sk, pk) is Some <==> decaf377_decodes(pk),
        agreement(sk, pk) matches Some(shared) ==> shared == decaf377_mul(sk, pk),
{
}

} // verus!
