use decaf377::FieldExt;
use penumbra_note::bytes::{u64_from_le_bytes, u64_to_le_bytes};
use penumbra_note::field::{Fq, InvalidEncoding};
use penumbra_note::group::{Element, Fr};
use penumbra_note::hash::poseidon_hash_5;
use penumbra_note::ka;
use penumbra_note::keys::{Diversifier, IncomingViewingKey};

/// The number of elements of `Fq`, least significant byte first.
const Q: [u8; 32] = [
    0x01, 0x00, 0x00, 0x00, 0x00, 0x80, 0x11, 0x0a, 0x01, 0x00, 0x00, 0xd0, 0xfe, 0x76, 0xaa, 0x59,
    0x01, 0xb0, 0x37, 0x5c, 0x1e, 0x4d, 0xb4, 0x60, 0x56, 0xa5, 0x2c, 0x9a, 0x5e, 0x65, 0xab, 0x12,
];

/// The order of the group, least significant byte first.
const R: [u8; 32] = [
    0xff, 0xd9, 0x3f, 0xc3, 0x9a, 0xee, 0x5a, 0xb9, 0xfe, 0x8a, 0x3c, 0xc4, 0xaf, 0xa3, 0x93, 0x52,
    0x00, 0xec, 0x0d, 0x97, 0x47, 0x13, 0x2d, 0x98, 0x55, 0x29, 0x8b, 0xa6, 0x57, 0xd9, 0xaa, 0x04,
];

fn small(n: u8) -> [u8; 32] {
    let mut bytes = [0u8; 32];
    bytes[0] = n;
    bytes
}

#[test]
fn numbers_are_written_and_read_least_significant_byte_first() {
    let x: u64 = 0x0102_0304_0506_0708;
    assert_eq!(u64_to_le_bytes(x), [8, 7, 6, 5, 4, 3, 2, 1]);
    assert_eq!(u64_from_le_bytes(&[8, 7, 6, 5, 4, 3, 2, 1]), x);
    assert_eq!(u64_from_le_bytes(&[0xff; 8]), u64::MAX);
    assert_eq!(u64_to_le_bytes(u64::MAX), [0xff; 8]);
}

#[test]
fn field_elements_are_below_the_modulus() {
    assert_eq!(Fq::from_bytes(Q), Err(InvalidEncoding));
    let mut below = Q;
    below[0] = 0;
    let x = Fq::from_bytes(below).expect("one less than the modulus");
    assert_eq!(x.to_bytes(), below);
}

#[test]
fn bytes_are_reduced_modulo_the_modulus() {
    let mut above = Q;
    above[0] = 6;
    assert_eq!(Fq::from_le_bytes_mod_order(&above).to_bytes(), small(5));
    assert_eq!(Fq::from_le_bytes_mod_order(&Q).to_bytes(), small(0));
    assert_eq!(Fq::from_le_bytes_mod_order(&[7]).to_bytes(), small(7));
    assert_eq!(Fq::from_le_bytes_mod_order(&[]).to_bytes(), small(0));
    // The label of note commitments.
    let hash = blake2b_simd::blake2b(b"penumbra.notecommit");
    assert_eq!(
        Fq::from_le_bytes_mod_order(hash.as_bytes()).to_bytes(),
        [
            0x73, 0x20, 0xdb, 0x35, 0xb0, 0x86, 0xe6, 0x02, 0xd7, 0x2d, 0xfa, 0x25, 0xc1, 0x3d,
            0x49, 0x4b, 0xe9, 0x5f, 0x6f, 0x70, 0x3f, 0xd5, 0x83, 0x2b, 0xbf, 0xde, 0x95, 0xd2,
            0x22, 0x2f, 0xeb, 0x08,
        ]
    );
}

#[test]
fn a_machine_number_is_its_own_field_element() {
    let mut expected = [0u8; 32];
    expected[..8].copy_from_slice(&[0xff; 8]);
    assert_eq!(Fq::from_u64(u64::MAX).to_bytes(), expected);
    assert_eq!(Fq::from_u64(10).to_bytes(), small(10));
}

#[test]
fn random_field_elements_differ() {
    let mut rng = rand_core::OsRng;
    assert_ne!(Fq::rand(&mut rng), Fq::rand(&mut rng));
}

#[test]
fn scalars_are_below_the_order_of_the_group() {
    assert_eq!(Fr::from_bytes(R), Err(InvalidEncoding));
    assert!(ka::Secret::from_bytes(R).is_err());
    let mut below = R;
    below[0] = 0xfe;
    let x = Fr::from_bytes(below).expect("one less than the order");
    assert_eq!(x.to_bytes(), below);
    let sk = ka::Secret::from_bytes(below).expect("one less than the order");
    assert_eq!(sk.to_bytes(), below);
}

#[test]
fn group_elements_are_their_encodings() {
    let basepoint = decaf377::basepoint().vartime_compress().0;
    let p = Element::decompress(basepoint).expect("the encoding of an element");
    assert_eq!(p.compress(), basepoint);
    assert_eq!(p.compress_to_field().to_bytes(), basepoint);
    assert_eq!(Element::decompress([0xff; 32]), Err(InvalidEncoding));
}

#[test]
fn multiples_are_those_of_the_group_and_commute() {
    let basepoint = decaf377::basepoint();
    let p = Element::decompress(basepoint.vartime_compress().0).expect("an encoding");
    let a = Fr::from_bytes(small(7)).expect("a scalar");
    let b = Fr::from_bytes(small(11)).expect("a scalar");
    let seven = decaf377::Fr::from_bytes(small(7)).expect("a scalar");
    assert_eq!(p.mul(&a).compress(), (seven * basepoint).vartime_compress().0);
    assert_eq!(p.mul(&a).mul(&b), p.mul(&b).mul(&a));
    assert_ne!(p.mul(&a), p);
}

#[test]
fn multiples_are_elements_for_every_scalar() {
    let mut last = R;
    last[0] = 0xfe;
    let scalars = vec![small(0), small(1), small(2), small(255), [0x03; 32], last];
    let generator = Diversifier([5; 11]).diversified_generator();
    for s in scalars.iter() {
        let a = Fr::from_bytes(*s).expect("a scalar");
        let p = generator.mul(&a);
        assert_eq!(Element::decompress(p.compress()), Ok(p));
        for t in scalars.iter() {
            let b = Fr::from_bytes(*t).expect("a scalar");
            assert_eq!(p.mul(&b), generator.mul(&b).mul(&a));
        }
    }
    // The identity is encoded as zero.
    let zero = Fr::from_bytes(small(0)).expect("a scalar");
    assert_eq!(generator.mul(&zero).compress(), small(0));
}

#[test]
fn field_elements_are_mapped_to_the_group() {
    let r = decaf377::Fq::from_bytes(small(9)).expect("a field element");
    let expected = decaf377::Element::encode_to_curve(&r).vartime_compress().0;
    let p = Element::encode_to_curve(&Fq::from_bytes(small(9)).expect("a field element"));
    assert_eq!(p.compress(), expected);
    for n in 0..32u8 {
        let p = Element::encode_to_curve(&Fq::from_bytes(small(n)).expect("a field element"));
        assert_eq!(Element::decompress(p.compress()), Ok(p));
    }
}

#[test]
fn five_field_elements_are_hashed() {
    let x = |n: u8| Fq::from_bytes(small(n)).expect("a field element");
    let y = |n: u8| decaf377::Fq::from_bytes(small(n)).expect("a field element");
    let hash = poseidon_hash_5(&x(1), (x(2), x(3), x(4), x(5), x(6)));
    let expected = poseidon377::hash_5(&y(1), (y(2), y(3), y(4), y(5), y(6)));
    assert_eq!(hash.to_bytes(), expected.to_bytes());
    let swapped = poseidon_hash_5(&x(1), (x(3), x(2), x(4), x(5), x(6)));
    assert_ne!(hash, swapped);
}

#[test]
fn both_sides_of_an_agreement_come_out_equal() {
    let alice = ka::Secret::from_bytes(small(7)).expect("a scalar");
    let bob = ka::Secret::from_bytes(small(11)).expect("a scalar");
    let generator = Diversifier([5; 11]).diversified_generator();
    let a = alice.key_agreement_with(&bob.diversified_public(&generator));
    let b = bob.key_agreement_with(&alice.diversified_public(&generator));
    assert!(a.is_ok());
    assert_eq!(a, b);
    let other = Diversifier([6; 11]).diversified_generator();
    assert_ne!(a, bob.key_agreement_with(&alice.diversified_public(&other)));
}

#[test]
fn there_is_no_agreement_with_an_invalid_public_key() {
    let sk = ka::Secret::from_bytes(small(7)).expect("a scalar");
    let bad = ka::Public([0xff; 32]);
    assert_eq!(sk.key_agreement_with(&bad), Err(ka::Error::InvalidPublic(bad)));
    let ivk = IncomingViewingKey::new(sk);
    assert_eq!(ivk.key_agreement_with(&bad), Err(ka::Error::InvalidPublic(bad)));
}

#[test]
fn keys_and_diversifiers_have_their_lengths() {
    assert_eq!(ka::Public::try_from(&[1u8; 32][..]), Ok(ka::Public([1; 32])));
    assert_eq!(ka::Public::try_from(&[1u8; 31][..]), Err(ka::Error::InvalidLength));
    assert_eq!(Diversifier::try_from(&[1u8; 11][..]), Ok(Diversifier([1; 11])));
    assert_eq!(Diversifier::try_from(&[1u8; 12][..]), Err(InvalidEncoding));
}

#[test]
fn a_diversifier_stands_for_the_image_of_its_hash() {
    let mut params = blake2b_simd::Params::new();
    params.personal(b"Penumbra_Divrsfy");
    let hash = params.hash(&[5u8; 11]);
    let expected = Element::encode_to_curve(&Fq::from_le_bytes_mod_order(hash.as_bytes()));
    assert_eq!(Diversifier([5; 11]).diversified_generator(), expected);
}

#[test]
fn an_address_holds_the_public_key_of_the_viewing_key() {
    let sk = ka::Secret::from_bytes(small(7)).expect("a scalar");
    let d = Diversifier([5; 11]);
    let address = IncomingViewingKey::new(sk).payment_address(d);
    assert_eq!(*address.diversifier(), d);
    assert_eq!(*address.transmission_key(), sk.diversified_public(&d.diversified_generator()));
}

#[test]
fn what_is_made_twice_from_the_same_bytes_is_equal() {
    let d = Diversifier([5; 11]);
    assert_eq!(d.diversified_generator(), d.diversified_generator());
    assert_ne!(d.diversified_generator(), Diversifier([6; 11]).diversified_generator());
    let sk = ka::Secret::from_bytes(small(7)).expect("a scalar");
    let other = ka::Secret::from_bytes(small(8)).expect("a scalar");
    assert_eq!(ka::Secret::from_bytes(sk.to_bytes()), Ok(sk));
    assert_eq!(Fr::from_bytes(small(7)), Fr::from_bytes(small(7)));
    assert_ne!(sk, other);
    let ivk = IncomingViewingKey::new(sk);
    assert_eq!(ivk, IncomingViewingKey::new(sk));
    assert_ne!(ivk, IncomingViewingKey::new(other));
    assert_eq!(ivk.payment_address(d), ivk.payment_address(d));
    assert_ne!(ivk.payment_address(d), IncomingViewingKey::new(other).payment_address(d));
    assert_ne!(ivk.payment_address(d), ivk.payment_address(Diversifier([6; 11])));
}
