//! The group decaf377: its elements, held as their encodings, and its scalars.
use decaf377::FieldExt;
use vstd::arithmetic::power::pow;
use vstd::prelude::*;

use crate::bytes::{le_bytes, le_nat, lemma_le_nat_injective, lemma_write_of_read};
use crate::field::{fq_modulus, lemma_fq_modulus_fits, Fq, InvalidEncoding};

verus! {

/// The order of the group, which is the number of its scalars.
pub open spec fn fr_modulus() -> nat {
    2111115437357092606062206234695386632838870926408408195193685246394721360383nat
}

/// Whether 32 bytes are the encoding of a group element: what
/// `decaf377::Encoding::vartime_decompress` decides.
pub uninterp spec fn decaf377_decodes(encoding: Seq<u8>) -> bool;

/// The encoding of the multiple, by a scalar, of the group element with the given encoding: what
/// the product of a `decaf377::Fr` and a `decaf377::Element` is.
pub uninterp spec fn decaf377_mul(scalar: nat, encoding: Seq<u8>) -> Seq<u8>;

/// The encoding of the group element that a field element is mapped to: what
/// `decaf377::Element::encode_to_curve` gives.
pub uninterp spec fn decaf377_encode_to_curve(r: nat) -> Seq<u8>;

/// Calls `decaf377::Encoding::vartime_decompress`, and writes the element out again with
/// `vartime_compress`.
///
/// The contract claims that encodings are unique: where the bytes are decoded, the element is
/// written as the same bytes, and these are the bytes of a field element.
#[verifier::external_body]
fn decompress(encoding: [u8; 32]) -> (result: Result<[u8; 32], decaf377::EncodingError>)
    ensures
        result is Ok <==> decaf377_decodes(encoding@),
        result matches Ok(canonical) ==> canonical@ == encoding@ && le_nat(canonical@)
            < fq_modulus(),
{
    decaf377::Encoding(encoding).vartime_decompress().map(|p| p.vartime_compress().0)
}

/// Calls `decaf377::Element::vartime_compress_to_field`.
///
/// The contract claims that the field element is the one whose bytes are the encoding: this is
/// how `vartime_compress` makes the encoding.
#[verifier::external_body]
fn compress_to_field(encoding: [u8; 32]) -> (result: [u8; 32])
    requires
        decaf377_decodes(encoding@),
    ensures
        result@ == encoding@,
{
    let p = decaf377::Encoding(encoding).vartime_decompress().unwrap();
    p.vartime_compress_to_field().to_bytes()
}

/// Calls the product of a `decaf377::Fr` and a `decaf377::Element`.
///
/// The contract names the product and claims that it is an element of the group, and that
/// multiples commute, which holds in every commutative group: a multiple by `t` of the multiple
/// by `scalar` is the multiple by `scalar` of the multiple by `t`.
#[verifier::external_body]
fn scalar_mul(scalar: [u8; 32], encoding: [u8; 32]) -> (result: [u8; 32])
    requires
        le_nat(scalar@) < fr_modulus(),
        decaf377_decodes(encoding@),
    ensures
        result@ == decaf377_mul(le_nat(scalar@), encoding@),
        decaf377_decodes(result@),
        le_nat(result@) < fq_modulus(),
        forall|t: nat|
            t < fr_modulus() ==> #[trigger] decaf377_mul(t, result@) == decaf377_mul(
                le_nat(scalar@),
                decaf377_mul(t, encoding@),
            ),
{
    let s = decaf377::Fr::from_bytes(scalar).unwrap();
    let p = decaf377::Encoding(encoding).vartime_decompress().unwrap();
    (s * p).vartime_compress().0
}

/// Calls `decaf377::Element::encode_to_curve`.
///
/// The contract names the result and claims that it is an element of the group.
#[verifier::external_body]
fn encode_to_curve(r: [u8; 32]) -> (result: [u8; 32])
    requires
        le_nat(r@) < fq_modulus(),
    ensures
        result@ == decaf377_encode_to_curve(le_nat(r@)),
        decaf377_decodes(result@),
        le_nat(result@) < fq_modulus(),
{
    let x = decaf377::Fq::from_bytes(r).unwrap();
    decaf377::Element::encode_to_curve(&x).vartime_compress().0
}

/// Calls `decaf377::FieldExt::from_bytes` for `Fr`, and writes the scalar out again with
/// `to_bytes`.
///
/// The contract claims that 32 bytes are taken exactly if they write, least significant byte
/// first, a number below the order of the group, and that the scalar is written as the same
/// bytes.
#[verifier::external_body]
fn fr_from_bytes(bytes: [u8; 32]) -> (result: Result<[u8; 32], decaf377::EncodingError>)
    ensures
        result is Ok <==> le_nat(bytes@) < fr_modulus(),
        result matches Ok(canonical) ==> canonical@ == bytes@,
{
    decaf377::Fr::from_bytes(bytes).map(|x| x.to_bytes())
}

/// A scalar: a number modulo the order of the group, held as its 32 little-endian bytes.
#[derive(Clone, Copy, Debug, PartialEq, Eq)]
pub struct Fr {
    bytes: [u8; 32],
}

impl View for Fr {
    type V = nat;

    closed spec fn view(&self) -> nat {
        le_nat(self.bytes@)
    }
}

impl Fr {
    /// The scalar is a number below the order of the group.
    #[verifier::type_invariant]
    pub open spec fn wf(self) -> bool {
        self@ < fr_modulus()
    }

    /// The scalar that 32 little-endian bytes write, unless their number is not below the order
    /// of the group.
    pub fn from_bytes(bytes: [u8; 32]) -> (result: Result<Fr, InvalidEncoding>)
        ensures
            result is Ok <==> le_nat(bytes@) < fr_modulus(),
            result matches Ok(x) ==> x.wf() && x@ == le_nat(bytes@),
    {
        match fr_from_bytes(bytes) {
            Ok(canonical) => Ok(Fr { bytes: canonical }),
            Err(_) => Err(InvalidEncoding),
        }
    }

    /// The 32 little-endian bytes of the scalar.
    pub fn to_bytes(&self) -> (bytes: [u8; 32])
        ensures
            bytes@ == le_bytes(self@, 32),
            le_nat(bytes@) == self@,
    {
        proof {
            lemma_write_of_read(self.bytes@);
        }
        self.bytes
    }
}

/// An element of the group, held as its encoding.
#[derive(Clone, Copy, Debug, PartialEq, Eq, Hash)]
pub struct Element {
    encoding: [u8; 32],
}

impl View for Element {
    type V = Seq<u8>;

    closed spec fn view(&self) -> Seq<u8> {
        self.encoding@
    }
}

impl Element {
    /// The bytes are the encoding of a group element, and so the bytes of a field element.
    #[verifier::type_invariant]
    pub open spec fn wf(self) -> bool {
        &&& self@.len() == 32
        &&& decaf377_decodes(self@)
        &&& le_nat(self@) < fq_modulus()
    }

    /// The element with the given encoding, unless there is none.
    pub fn decompress(encoding: [u8; 32]) -> (result: Result<Element, InvalidEncoding>)
        ensures
            result is Ok <==> decaf377_decodes(encoding@),
            result matches Ok(p) ==> p.wf() && p@ == encoding@,
    {
        match decompress(encoding) {
            Ok(canonical) => Ok(Element { encoding: canonical }),
            Err(_) => Err(InvalidEncoding),
        }
    }

    /// The encoding of the element.
    pub fn compress(&self) -> (encoding: [u8; 32])
        ensures
            encoding@ == self@,
            le_nat(encoding@) < fq_modulus(),
            decaf377_decodes(encoding@),
    {
        proof {
            use_type_invariant(self);
        }
        self.encoding
    }

    /// The field element whose bytes are the encoding of the element.
    pub fn compress_to_field(&self) -> (s: Fq)
        ensures
            s.wf(),
            s@ == le_nat(self@),
    {
        proof {
            use_type_invariant(self);
        }
        match Fq::from_bytes(compress_to_field(self.encoding)) {
            Ok(s) => s,
            Err(_) => vstd::pervasive::unreached(),
        }
    }

    /// The element that a field element is mapped to.
    pub fn encode_to_curve(r: &Fq) -> (p: Element)
        ensures
            p.wf(),
            p@ == decaf377_encode_to_curve(r@),
    {
        proof {
            use_type_invariant(r);
        }
        Element { encoding: encode_to_curve(r.to_bytes()) }
    }

    /// The multiple of the element by a scalar. Multiples by two scalars commute.
    pub fn mul(&self, scalar: &Fr) -> (p: Element)
        ensures
            p.wf(),
            p@ == decaf377_mul(scalar@, self@),
            forall|t: nat|
                t < fr_modulus() ==> #[trigger] decaf377_mul(t, p@) == decaf377_mul(
                    scalar@,
                    decaf377_mul(t, self@),
                ),
    {
        proof {
            use_type_invariant(self);
            use_type_invariant(scalar);
        }
        Element { encoding: scalar_mul(scalar.bytes, self.encoding) }
    }
}

/// Scalars are told apart by their numbers.
pub proof fn lemma_fr_view_injective(a: Fr, b: Fr)
    requires
        a@ == b@,
    ensures
        a == b,
{
    lemma_le_nat_injective(a.bytes@, b.bytes@);
    assert(a.bytes =~= b.bytes);
}

/// Group elements are told apart by their encodings.
pub proof fn lemma_element_view_injective(a: Element, b: Element)
    requires
        a@ == b@,
    ensures
        a == b,
{
    assert(a.encoding =~= b.encoding);
}

/// Every scalar fits in 32 bytes.
pub proof fn lemma_fr_modulus_fits()
    ensures
        fr_modulus() < pow(256, 32),
{
    lemma_fq_modulus_fits();
}

} // verus!
