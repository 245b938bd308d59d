use ark_ff::{PrimeField, UniformRand};
use chacha20poly1305::aead::{Aead, NewAead};
use decaf377::FieldExt;
use penumbra_note::address::Address;
use penumbra_note::asset;
use penumbra_note::field::Fq;
use penumbra_note::group::Element;
use penumbra_note::ka;
use penumbra_note::keys::{Diversifier, IncomingViewingKey, OutgoingViewingKey};
use penumbra_note::note::{
    commitment, derive_symmetric_key, note_encryption_nonce, Error, Note, NOTE_CIPHERTEXT_BYTES,
    NOTE_LEN_BYTES, NOTE_TYPE, OVK_WRAPPED_LEN_BYTES,
};
use penumbra_note::value;
use penumbra_note::value::Value;
use rand_core::OsRng;

fn random_secret() -> ka::Secret {
    let scalar = decaf377::Fr::rand(&mut OsRng);
    ka::Secret::from_bytes(scalar.to_bytes()).expect("a scalar is a secret key")
}

fn small_secret(n: u8) -> ka::Secret {
    let mut bytes = [0u8; 32];
    bytes[0] = n;
    ka::Secret::from_bytes(bytes).expect("a small number is a scalar")
}

fn small_fq(n: u8) -> Fq {
    let mut bytes = [0u8; 32];
    bytes[0] = n;
    Fq::from_bytes(bytes).expect("a small number is a field element")
}

fn asset_id_of(denom: &str) -> asset::Id {
    let mut params = blake2b_simd::Params::new();
    params.personal(b"Penumbra_AssetID");
    let hash = params.hash(denom.as_bytes());
    asset::Id(Fq::from_le_bytes_mod_order(hash.as_bytes()))
}

/// A note to an address of the viewing key `7`, and that key.
fn sample() -> (Note, IncomingViewingKey) {
    let ivk = IncomingViewingKey::new(small_secret(7));
    let address = ivk.payment_address(Diversifier([5u8; 11]));
    let value = Value { amount: 0x0102_0304_0506_0708, asset_id: asset::Id(small_fq(3)) };
    (Note::addressed(&address, value, small_fq(9)), ivk)
}

#[test]
fn test_note_encryption_and_decryption() {
    let mut rng = OsRng;

    let ivk = IncomingViewingKey::new(random_secret());
    let dest = ivk.payment_address(Diversifier([0u8; 11]));

    let value = Value { amount: 10, asset_id: asset_id_of("upenumbra") };
    let note = Note::generate(&mut rng, &dest, value);
    let esk = random_secret();

    let ciphertext = note.encrypt(&esk);

    let epk = esk.diversified_public(&dest.diversifier().diversified_generator());
    let plaintext = Note::decrypt(&ciphertext, &ivk, &epk).expect("can decrypt note");

    assert_eq!(plaintext, note);

    let ivk2 = IncomingViewingKey::new(random_secret());

    assert!(Note::decrypt(&ciphertext, &ivk2, &epk).is_err());
}

#[test]
fn a_note_is_laid_out_as_type_diversifier_amount_asset_blinding_key() {
    let (note, _) = sample();
    let bytes = note.to_bytes();
    assert_eq!(bytes.len(), NOTE_LEN_BYTES);
    assert_eq!(bytes[0], NOTE_TYPE);
    assert_eq!(bytes[1..12], [5u8; 11]);
    assert_eq!(bytes[12..20], [8, 7, 6, 5, 4, 3, 2, 1]);
    assert_eq!(bytes[20], 3);
    assert_eq!(bytes[21..52], [0u8; 31]);
    assert_eq!(bytes[52], 9);
    assert_eq!(bytes[53..84], [0u8; 31]);
    assert_eq!(bytes[84..116], note.transmission_key().0);
}

#[test]
fn the_ways_of_writing_a_note_agree() {
    let (note, _) = sample();
    let array = note.to_bytes();
    let vec: Vec<u8> = Vec::from(&note);
    let from_ref = <[u8; NOTE_LEN_BYTES]>::from(&note);
    let from_owned = <[u8; NOTE_LEN_BYTES]>::from(note.clone());
    assert_eq!(vec, array.to_vec());
    assert_eq!(from_ref, array);
    assert_eq!(from_owned, array);
}

#[test]
fn reading_what_was_written_gives_the_note_back() {
    let (note, _) = sample();
    let bytes = note.to_bytes();
    assert_eq!(Note::try_from(bytes), Ok(note.clone()));
    assert_eq!(Note::try_from(&bytes[..]), Ok(note));
}

#[test]
fn writing_what_was_read_gives_the_bytes_back() {
    let mut bytes = [0u8; NOTE_LEN_BYTES];
    let mut i = 1;
    while i < NOTE_LEN_BYTES {
        bytes[i] = i as u8;
        i += 1;
    }
    // The high bytes of the field elements.
    bytes[51] = 0x11;
    bytes[83] = 0x11;
    bytes[115] = 0x11;
    let note = Note::try_from(bytes).expect("the field elements are below the modulus");
    assert_eq!(note.to_bytes(), bytes);
    assert_eq!(note.amount(), u64::from_le_bytes([12, 13, 14, 15, 16, 17, 18, 19]));
}

#[test]
fn a_byte_string_of_another_length_is_not_read() {
    let (note, _) = sample();
    let bytes = note.to_bytes();
    let mut longer = bytes.to_vec();
    longer.push(0);
    assert_eq!(Note::try_from(&bytes[..115]), Err(Error::NoteDeserializationError));
    assert_eq!(Note::try_from(&longer[..]), Err(Error::NoteDeserializationError));
    let empty: [u8; 0] = [];
    assert_eq!(Note::try_from(&empty[..]), Err(Error::NoteDeserializationError));
}

#[test]
fn another_type_of_note_is_not_read() {
    let (note, _) = sample();
    let mut bytes = note.to_bytes();
    bytes[0] = 1;
    assert_eq!(Note::try_from(bytes), Err(Error::NoteTypeUnsupported));
    // The type is looked at before the field elements.
    bytes[51] = 0xff;
    assert_eq!(Note::try_from(bytes), Err(Error::NoteTypeUnsupported));
}

#[test]
fn numbers_that_are_not_below_the_modulus_are_not_read() {
    let (note, _) = sample();
    let good = note.to_bytes();
    let mut asset = good;
    asset[51] = 0xff;
    assert_eq!(Note::try_from(asset), Err(Error::NoteDeserializationError));
    let mut blinding = good;
    blinding[83] = 0xff;
    assert_eq!(Note::try_from(blinding), Err(Error::NoteDeserializationError));
    let mut key = good;
    key[115] = 0xff;
    assert_eq!(Note::try_from(key), Err(Error::InvalidTransmissionKey));
    // A bad field element is reported before a bad transmission key.
    key[83] = 0xff;
    assert_eq!(Note::try_from(key), Err(Error::NoteDeserializationError));
}

#[test]
fn parts_with_an_invalid_transmission_key_make_no_note() {
    let value = Value { amount: 1, asset_id: asset::Id(small_fq(3)) };
    let result =
        Note::from_parts(Diversifier([5u8; 11]), ka::Public([0xff; 32]), value, small_fq(9));
    assert_eq!(result, Err(Error::InvalidTransmissionKey));
}

#[test]
fn the_parts_of_a_note_are_those_it_was_made_from() {
    let mut key = [0u8; 32];
    key[0] = 8;
    let value = Value { amount: 77, asset_id: asset::Id(small_fq(3)) };
    let note = Note::from_parts(Diversifier([5u8; 11]), ka::Public(key), value, small_fq(9))
        .expect("the transmission key is a field element");
    assert_eq!(note.diversifier(), Diversifier([5u8; 11]));
    assert_eq!(note.transmission_key(), ka::Public(key));
    assert_eq!(note.transmission_key_s(), small_fq(8));
    assert_eq!(note.value(), value);
    assert_eq!(note.asset_id(), asset::Id(small_fq(3)));
    assert_eq!(note.amount(), 77);
    assert_eq!(note.note_blinding(), small_fq(9));
    assert_eq!(note.diversified_generator(), Diversifier([5u8; 11]).diversified_generator());
}

#[test]
fn fresh_notes_have_different_blinding_factors() {
    let mut rng = OsRng;
    let ivk = IncomingViewingKey::new(small_secret(7));
    let address = ivk.payment_address(Diversifier([5u8; 11]));
    let value = Value { amount: 1, asset_id: asset::Id(small_fq(3)) };
    let a = Note::generate(&mut rng, &address, value);
    let b = Note::generate(&mut rng, &address, value);
    assert_ne!(a.note_blinding(), b.note_blinding());
    assert_eq!(a.transmission_key(), b.transmission_key());
    assert_eq!(a.diversifier(), b.diversifier());
    assert_eq!(a.value(), b.value());
    assert_ne!(a.commit(), b.commit());
}

#[test]
fn an_address_needs_a_transmission_key_that_is_a_field_element() {
    let d = Diversifier([5u8; 11]);
    assert!(Address::from_components(d, ka::Public([0xff; 32])).is_none());
    let address = Address::from_components(d, ka::Public([2; 32])).expect("a field element");
    assert_eq!(*address.diversifier(), d);
    assert_eq!(*address.transmission_key(), ka::Public([2; 32]));
}

#[test]
fn the_symmetric_key_is_the_hash_of_secret_and_public_key() {
    let key = derive_symmetric_key(&ka::SharedSecret([1; 32]), &ka::Public([2; 32]));
    assert_eq!(
        key,
        [
            0x30, 0xb6, 0x00, 0xfb, 0x1f, 0x0c, 0xc0, 0xb3, 0xf0, 0xfc, 0x28, 0xcd, 0xcb, 0x73,
            0x89, 0x40, 0x5a, 0x66, 0x59, 0xbe, 0x81, 0xc7, 0xd5, 0xc5, 0x90, 0x57, 0x25, 0xaa,
            0x3a, 0x51, 0x19, 0xce,
        ]
    );
}

#[test]
fn the_nonce_is_zero() {
    assert_eq!(note_encryption_nonce(), [0u8; 12]);
}

#[test]
fn the_ciphertext_is_the_sealed_note() {
    let (note, _) = sample();
    let esk = small_secret(11);
    let ciphertext = note.encrypt(&esk);
    assert_eq!(ciphertext.len(), NOTE_CIPHERTEXT_BYTES);
    let epk = esk.diversified_public(&note.diversified_generator());
    let shared = esk.key_agreement_with(&note.transmission_key()).expect("a valid key");
    let key = derive_symmetric_key(&shared, &epk);
    let cipher = chacha20poly1305::ChaCha20Poly1305::new(chacha20poly1305::Key::from_slice(&key));
    let nonce = [0u8; 12];
    let sealed = cipher
        .encrypt(chacha20poly1305::Nonce::from_slice(&nonce), &note.to_bytes()[..])
        .expect("a short message");
    assert_eq!(ciphertext.to_vec(), sealed);
    assert_eq!(note.try_encrypt(&esk), Some(ciphertext));
}

#[test]
fn a_note_whose_transmission_key_is_no_group_element_is_not_encrypted() {
    let mut key = [0u8; 32];
    key[0] = 1;
    assert!(Element::decompress(key).is_err());
    let value = Value { amount: 1, asset_id: asset::Id(small_fq(3)) };
    let note = Note::from_parts(Diversifier([5u8; 11]), ka::Public(key), value, small_fq(9))
        .expect("the transmission key is a field element");
    assert_eq!(note.try_encrypt(&small_secret(11)), None);
}

#[test]
fn the_owner_reads_the_note_and_nobody_else_does() {
    let (note, ivk) = sample();
    let esk = small_secret(11);
    let ciphertext = note.encrypt(&esk);
    let epk = esk.diversified_public(&note.diversified_generator());
    assert_eq!(Note::decrypt(&ciphertext, &ivk, &epk), Ok(note));
    let other = IncomingViewingKey::new(small_secret(8));
    assert_eq!(Note::decrypt(&ciphertext, &other, &epk), Err(Error::DecryptionError));
}

#[test]
fn what_was_not_encrypted_as_a_note_is_not_decrypted() {
    let (note, ivk) = sample();
    let esk = small_secret(11);
    let ciphertext = note.encrypt(&esk);
    let epk = esk.diversified_public(&note.diversified_generator());
    // The length.
    assert_eq!(Note::decrypt(&ciphertext[..131], &ivk, &epk), Err(Error::DecryptionError));
    // The ephemeral public key.
    let bad_epk = ka::Public([0xff; 32]);
    assert_eq!(Note::decrypt(&ciphertext, &ivk, &bad_epk), Err(Error::DecryptionError));
    // The tag.
    let mut tampered = ciphertext;
    tampered[131] ^= 1;
    assert_eq!(Note::decrypt(&tampered, &ivk, &epk), Err(Error::DecryptionError));
    // The plaintext.
    let shared = esk.key_agreement_with(&note.transmission_key()).expect("a valid key");
    let key = derive_symmetric_key(&shared, &epk);
    let cipher = chacha20poly1305::ChaCha20Poly1305::new(chacha20poly1305::Key::from_slice(&key));
    let nonce = [0u8; 12];
    let mut plaintext = note.to_bytes();
    plaintext[0] = 1;
    let sealed = cipher
        .encrypt(chacha20poly1305::Nonce::from_slice(&nonce), &plaintext[..])
        .expect("a short message");
    assert_eq!(Note::decrypt(&sealed, &ivk, &epk), Err(Error::DecryptionError));
}

#[test]
fn a_plaintext_is_read_as_a_note_or_not_at_all() {
    let (note, _) = sample();
    let bytes = note.to_bytes().to_vec();
    assert_eq!(Note::from_opening(Some(bytes)), Ok(note));
    assert_eq!(Note::from_opening(Some(vec![0u8; 3])), Err(Error::DecryptionError));
    assert_eq!(Note::from_opening(None), Err(Error::DecryptionError));
}

#[test]
fn the_outgoing_cipher_key_gives_the_keys_back() {
    let (note, _) = sample();
    let esk = small_secret(11);
    let ovk = OutgoingViewingKey([6; 32]);
    let cv = value::Commitment(Diversifier([1; 11]).diversified_generator());
    let wrapped = note.encrypt_key(&esk, &ovk, cv);
    assert_eq!(wrapped.len(), OVK_WRAPPED_LEN_BYTES);

    let mut params = blake2b_simd::Params::new();
    params.hash_length(32);
    let mut kdf = params.to_state();
    kdf.update(&ovk.0);
    kdf.update(&cv.0.compress());
    kdf.update(&note.commit().0.to_bytes());
    kdf.update(&esk.diversified_public(&note.diversified_generator()).0);
    let ock = kdf.finalize();
    let cipher = chacha20poly1305::ChaCha20Poly1305::new(chacha20poly1305::Key::from_slice(
        ock.as_bytes(),
    ));
    let nonce = [0u8; 12];
    let plaintext = cipher
        .decrypt(chacha20poly1305::Nonce::from_slice(&nonce), &wrapped[..])
        .expect("the same key");
    assert_eq!(plaintext[..32], note.transmission_key().0);
    assert_eq!(plaintext[32..], esk.to_bytes());
}

#[test]
fn the_commitment_is_the_hash_of_the_parts() {
    let (note, _) = sample();
    let label = blake2b_simd::blake2b(b"penumbra.notecommit");
    let separator = decaf377::Fq::from_le_bytes_mod_order(label.as_bytes());
    let generator = note.diversified_generator().compress();
    let key = note.transmission_key().0;
    let expected = poseidon377::hash_5(
        &separator,
        (
            decaf377::Fq::from(9u64),
            decaf377::Fq::from(0x0102_0304_0506_0708u64),
            decaf377::Fq::from(3u64),
            decaf377::Fq::from_bytes(generator).expect("an encoding is a field element"),
            decaf377::Fq::from_bytes(key).expect("a transmission key is a field element"),
        ),
    );
    assert_eq!(note.commit().0.to_bytes(), expected.to_bytes());
    let from_parts = commitment(
        note.note_blinding(),
        note.value(),
        note.diversified_generator(),
        note.transmission_key_s(),
    );
    assert_eq!(from_parts, note.commit());
}

#[test]
fn errors_have_their_texts() {
    assert_eq!(Error::InvalidNoteCommitment.message(), "Invalid note commitment");
    assert_eq!(Error::InvalidTransmissionKey.message(), "Invalid transmission key");
    assert_eq!(Error::NoteTypeUnsupported.message(), "Note type unsupported");
    assert_eq!(Error::NoteDeserializationError.message(), "Note deserialization error");
    assert_eq!(Error::DecryptionError.message(), "Decryption error");
}

#[test]
fn a_note_is_shown_by_its_four_parts() {
    let (note, _) = sample();
    let expected = format!(
        "Note {{ value: {:?}, diversifier: {:?}, transmission_key: {:?}, note_blinding: {:?} }}",
        note.value(),
        note.diversifier(),
        note.transmission_key(),
        note.note_blinding(),
    );
    assert_eq!(format!("{:?}", note), expected);
}

#[test]
fn the_key_of_the_encryption_opens_the_ciphertext_of_any_note() {
    // A note to a transmission key that belongs to no known viewing key.
    let key = Diversifier([1; 11]).diversified_generator().compress();
    let value = Value { amount: 1, asset_id: asset::Id(small_fq(3)) };
    let note = Note::from_parts(Diversifier([5; 11]), ka::Public(key), value, small_fq(9))
        .expect("an encoding is a field element");
    let esk = small_secret(11);
    let ciphertext = note.try_encrypt(&esk).expect("the key is a group element");
    let epk = esk.diversified_public(&note.diversified_generator());
    let shared = esk.key_agreement_with(&note.transmission_key()).expect("a valid key");
    let key = derive_symmetric_key(&shared, &epk);
    let cipher = chacha20poly1305::ChaCha20Poly1305::new(chacha20poly1305::Key::from_slice(&key));
    let nonce = [0u8; 12];
    let plaintext = cipher
        .decrypt(chacha20poly1305::Nonce::from_slice(&nonce), &ciphertext[..])
        .expect("the same key");
    assert_eq!(plaintext, note.to_bytes().to_vec());
}

#[test]
fn sealing_a_decrypted_note_again_gives_the_ciphertext_back() {
    let (note, ivk) = sample();
    let esk = small_secret(11);
    let ciphertext = note.encrypt(&esk);
    let epk = esk.diversified_public(&note.diversified_generator());
    let read = Note::decrypt(&ciphertext, &ivk, &epk).expect("the owner's key");
    let shared = ivk.key_agreement_with(&epk).expect("a valid key");
    let key = derive_symmetric_key(&shared, &epk);
    let cipher = chacha20poly1305::ChaCha20Poly1305::new(chacha20poly1305::Key::from_slice(&key));
    let nonce = [0u8; 12];
    let sealed = cipher
        .encrypt(chacha20poly1305::Nonce::from_slice(&nonce), &read.to_bytes()[..])
        .expect("a short message");
    assert_eq!(sealed, ciphertext.to_vec());
}

#[test]
fn a_ciphertext_with_another_tag_is_not_decrypted() {
    let (note, ivk) = sample();
    let esk = small_secret(11);
    let ciphertext = note.encrypt(&esk);
    let epk = esk.diversified_public(&note.diversified_generator());
    for i in 116..NOTE_CIPHERTEXT_BYTES {
        for bit in 0..8 {
            let mut other = ciphertext;
            other[i] ^= 1u8 << bit;
            assert_eq!(Note::decrypt(&other, &ivk, &epk), Err(Error::DecryptionError));
        }
    }
}
