//! Addresses.
use vstd::prelude::*;

use crate::bytes::le_nat;
use crate::field::{fq_modulus, Fq};
use crate::ka;
use crate::keys::Diversifier;

verus! {

/// Where notes can be sent to: a diversifier and a transmission key.
#[derive(Clone, Copy, Debug, PartialEq, Eq)]
pub struct Address {
    diversifier: Diversifier,
    transmission_key: ka::Public,
}

impl Address {
    /// The bytes of the diversifier.
    pub closed spec fn spec_diversifier(self) -> Seq<u8> {
        self.diversifier.0@
    }

    /// The bytes of the transmission key.
    pub closed spec fn spec_transmission_key(self) -> Seq<u8> {
        self.transmission_key.0@
    }

    /// The transmission key's bytes are those of a field element.
    #[verifier::type_invariant]
    pub open spec fn wf(self) -> bool {
        le_nat(self.spec_transmission_key()) < fq_modulus()
    }

    /// The address with the given parts, unless the transmission key's bytes are not those of a
    /// field element.
    pub fn from_components(diversifier: Diversifier, transmission_key: ka::Public) -> (result:
        Option<Address>)
        ensures
            result is Some <==> le_nat(transmission_key.0@) < fq_modulus(),
            result matches Some(address) ==> {
                &&& address.wf()
                &&& address.spec_diversifier() == diversifier.0@
                &&& address.spec_transmission_key() == transmission_key.0@
            },
    {
        match Fq::from_bytes(transmission_key.0) {
            Ok(_) => Some(Address { diversifier, transmission_key }),
            Err(_) => None,
        }
    }

    /// The diversifier of the address.
    pub fn diversifier(&self) -> (diversifier: &Diversifier)
        ensures
            diversifier.0@ == self.spec_diversifier(),
    {
        &self.diversifier
    }

    /// The transmission key of the address.
    pub fn transmission_key(&self) -> (transmission_key: &ka::Public)
        ensures
            transmission_key.0@ == self.spec_transmission_key(),
    {
        &self.transmission_key
    }
}

/// Addresses are told apart by the bytes of their two parts.
pub proof fn lemma_address_injective(a: Address, b: Address)
    requires
        a.spec_diversifier() == b.spec_diversifier(),
        a.spec_transmission_key() == b.spec_transmission_key(),
    ensures
        a == b,
{
    assert(a.diversifier.0 =~= b.diversifier.0);
    assert(a.transmission_key.0 =~= b.transmission_key.0);
}

} // verus!
