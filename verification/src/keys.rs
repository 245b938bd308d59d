//! Diversifiers and viewing keys.
use vstd::arithmetic::div_mod::lemma_fundamental_div_mod_converse;
use vstd::prelude::*;
use vstd::std_specs::convert::TryFromSpecImpl;

use crate::address::Address;
use crate::bytes::{array_at, le_nat};
use crate::field::{fq_modulus, Fq, InvalidEncoding};
use crate::group::{decaf377_decodes, decaf377_encode_to_curve, decaf377_mul, fr_modulus, Element};
use crate::hash::{blake2b, blake2b_hash};
use crate::ka;

verus! {

/// The length of a diversifier.
pub const DIVERSIFIER_LEN_BYTES: usize = 11;

/// The ASCII bytes of `Penumbra_Divrsfy`.
pub open spec fn diversify_personalization() -> Seq<u8> {
    seq![
        0x50u8, 0x65, 0x6e, 0x75, 0x6d, 0x62, 0x72, 0x61,
        0x5f, 0x44, 0x69, 0x76, 0x72, 0x73, 0x66, 0x79,
    ]
}

/// The encoding of the generator that a diversifier stands for: the image in the group of the
/// diversifier's hash, taken as a field element.
pub open spec fn generator_of(diversifier: Seq<u8>) -> Seq<u8> {
    decaf377_encode_to_curve(
        le_nat(blake2b_hash(64, diversify_personalization(), diversifier)) % fq_modulus(),
    )
}

/// What tells the addresses of one owner apart.
#[derive(Clone, Copy, Debug, PartialEq, Eq, Hash)]
pub struct Diversifier(pub [u8; DIVERSIFIER_LEN_BYTES]);

impl Diversifier {
    /// The generator that the diversifier stands for.
    pub fn diversified_generator(&self) -> (generator: Element)
        ensures
            generator.wf(),
            generator@ == generator_of(self.0@),
    {
        let personalization: [u8; 16] = [
            0x50, 0x65, 0x6e, 0x75, 0x6d, 0x62, 0x72, 0x61,
            0x5f, 0x44, 0x69, 0x76, 0x72, 0x73, 0x66, 0x79,
        ];
        proof {
            assert(personalization@ =~= diversify_personalization());
        }
        let hash = blake2b(64, &personalization, &self.0);
        Element::encode_to_curve(&Fq::from_le_bytes_mod_order(hash.as_slice()))
    }
}

impl TryFrom<&[u8]> for Diversifier {
    type Error = InvalidEncoding;

    fn try_from(bytes: &[u8]) -> (result: Result<Diversifier, InvalidEncoding>)
        ensures
            result is Ok <==> bytes@.len() == DIVERSIFIER_LEN_BYTES,
            result matches Ok(d) ==> d.0@ == bytes@,
    {
        if bytes.len() != DIVERSIFIER_LEN_BYTES {
            return Err(InvalidEncoding);
        }
        let d: [u8; DIVERSIFIER_LEN_BYTES] = array_at::<DIVERSIFIER_LEN_BYTES>(bytes, 0);
        proof {
            assert(d@ =~= bytes@);
        }
        Ok(Diversifier(d))
    }
}

impl TryFromSpecImpl<&[u8]> for Diversifier {
    open spec fn obeys_try_from_spec() -> bool {
        false
    }

    open spec fn try_from_spec(bytes: &[u8]) -> Result<Diversifier, InvalidEncoding> {
        arbitrary()
    }
}

/// The key with which the owner of an address reads the notes sent to it.
#[derive(Clone, Copy, Debug, PartialEq, Eq)]
pub struct IncomingViewingKey {
    ivk: ka::Secret,
}

impl View for IncomingViewingKey {
    type V = nat;

    closed spec fn view(&self) -> nat {
        self.ivk@
    }
}

impl IncomingViewingKey {
    /// The key is a scalar.
    #[verifier::type_invariant]
    pub open spec fn wf(self) -> bool {
        self@ < fr_modulus()
    }

    /// The viewing key that is the given secret key.
    pub fn new(ivk: ka::Secret) -> (key: IncomingViewingKey)
        ensures
            key.wf(),
            key@ == ivk@,
    {
        proof {
            use_type_invariant(&ivk);
        }
        IncomingViewingKey { ivk }
    }

    /// The address of the key's owner with the given diversifier: its transmission key is the
    /// public key of the viewing key for the diversifier's generator.
    pub fn payment_address(&self, diversifier: Diversifier) -> (address: Address)
        ensures
            address.wf(),
            address.spec_diversifier() == diversifier.0@,
            address.spec_transmission_key() == decaf377_mul(self@, generator_of(diversifier.0@)),
            decaf377_decodes(address.spec_transmission_key()),
    {
        let transmission_key = self.ivk.diversified_public(&diversifier.diversified_generator());
        match Address::from_components(diversifier, transmission_key) {
            Some(address) => address,
            None => vstd::pervasive::unreached(),
        }
    }

    /// The secret that the key's owner shares with the holder of `pk`, unless `pk` is not the
    /// encoding of a group element.
    pub fn key_agreement_with(&self, pk: &ka::Public) -> (result: Result<
        ka::SharedSecret,
        ka::Error,
    >)
        ensures
            match result {
                Ok(shared) => ka::agreement(self@, pk.0@) == Some(shared.0@),
                Err(e) => ka::agreement(self@, pk.0@) is None && e == ka::Error::InvalidPublic(*pk),
            },
            result is Ok <==> decaf377_decodes(pk.0@),
            result matches Ok(shared) ==> shared.0@ == decaf377_mul(self@, pk.0@),
    {
        self.ivk.key_agreement_with(pk)
    }
}

/// The key with which a sender reads again what the sender has sent.
#[derive(Clone, Copy, Debug, PartialEq, Eq)]
pub struct OutgoingViewingKey(pub [u8; 32]);

/// Incoming viewing keys are told apart by their numbers.
pub proof fn lemma_incoming_view_injective(a: IncomingViewingKey, b: IncomingViewingKey)
    requires
        a@ == b@,
    ensures
        a == b,
{
    ka::lemma_secret_view_injective(a.ivk, b.ivk);
}

/// A diversifier stands for the image of the remainder `x`, modulo the number of field elements,
/// of the hash of the whole diversifier under the personalization spelled `Penumbra_Divrsfy`.
pub proof fn lemma_generator_of_hash(diversifier: Seq<u8>, label: Seq<u8>, k: int, x: nat)
    requires
        label.len() == "Penumbra_Divrsfy"@.len(),
        forall|i: int|
            0 <= i < label.len() ==> #[trigger] label[i] as int == "Penumbra_Divrsfy"@[i] as int,
        le_nat(blake2b_hash(64, label, diversifier)) == k * fq_modulus() + x,
        x < fq_modulus(),
    ensures
        generator_of(diversifier) == decaf377_encode_to_curve(x),
{
    reveal_strlit("Penumbra_Divrsfy");
    assert(label =~= diversify_personalization());
    lemma_fundamental_div_mod_converse(
        le_nat(blake2b_hash(64, label, diversifier)) as int,
        fq_modulus() as int,
        k,
        x as int,
    );
}

} // verus!
