//! Notes: what they hold, how they are written as bytes, committed to and encrypted.
use vstd::arithmetic::div_mod::lemma_fundamental_div_mod_converse;
use vstd::prelude::*;
use vstd::std_specs::convert::{FromSpecImpl, TryFromSpecImpl};

use crate::address::Address;
use crate::asset;
use crate::bytes::{
    array_at, copy_at, extend, le_bytes, le_nat, lemma_le_bytes_len, lemma_le_nat_bound,
    lemma_le_nat_injective, lemma_pow_256_8, lemma_read_of_write, lemma_write_of_read,
    u64_from_le_bytes, u64_to_le_bytes,
};
use crate::cipher::{
    chacha20poly1305_open, chacha20poly1305_seal, decrypt, differ_in_tag, encrypt,
};
use crate::field::{fq_modulus, lemma_fq_modulus_fits, lemma_fq_view_injective, Fq};
use crate::group::{
    decaf377_decodes, decaf377_mul, fr_modulus, lemma_fr_modulus_fits, Element,
};
use crate::hash::{blake2b, blake2b_hash, poseidon377_hash_5, poseidon_hash_5};
use crate::ka;
use crate::keys::{generator_of, Diversifier, IncomingViewingKey, OutgoingViewingKey};
use crate::value;
use crate::value::Value;

verus! {

/// The length of a note that is written as bytes.
pub const NOTE_LEN_BYTES: usize = 116;

/// The length of an encrypted note.
pub const NOTE_CIPHERTEXT_BYTES: usize = 132;

/// The length of an encrypted outgoing cipher key.
pub const OVK_WRAPPED_LEN_BYTES: usize = 80;

/// The first byte of every note that is written as bytes.
pub const NOTE_TYPE: u8 = 0;

/// Why a note cannot be made.
#[derive(Clone, Copy, Debug, PartialEq, Eq)]
pub enum Error {
    InvalidNoteCommitment,
    InvalidTransmissionKey,
    NoteTypeUnsupported,
    NoteDeserializationError,
    DecryptionError,
}

impl Error {
    /// The text of the error.
    pub open spec fn spec_message(self) -> Seq<char> {
        match self {
            Error::InvalidNoteCommitment => "Invalid note commitment"@,
            Error::InvalidTransmissionKey => "Invalid transmission key"@,
            Error::NoteTypeUnsupported => "Note type unsupported"@,
            Error::NoteDeserializationError => "Note deserialization error"@,
            Error::DecryptionError => "Decryption error"@,
        }
    }

    /// The text of the error.
    pub fn message(&self) -> (text: &'static str)
        ensures
            text@ == self.spec_message(),
    {
        match self {
            Error::InvalidNoteCommitment => "Invalid note commitment",
            Error::InvalidTransmissionKey => "Invalid transmission key",
            Error::NoteTypeUnsupported => "Note type unsupported",
            Error::NoteDeserializationError => "Note deserialization error",
            Error::DecryptionError => "Decryption error",
        }
    }
}

/// What a note holds.
#[verifier::ext_equal]
pub struct NoteContents {
    /// The bytes of the diversifier of the address controlling the note.
    pub diversifier: Seq<u8>,
    /// The bytes of the transmission key of the address controlling the note.
    pub transmission_key: Seq<u8>,
    /// The amount that the note records.
    pub amount: u64,
    /// The asset, a field element, that the note records an amount of.
    pub asset_id: nat,
    /// The blinding factor, a field element.
    pub note_blinding: nat,
}

impl NoteContents {
    /// The parts have their lengths and ranges; of the transmission key it is asked that its bytes
    /// are those of a field element.
    pub open spec fn wf(self) -> bool {
        &&& self.diversifier.len() == 11
        &&& self.transmission_key.len() == 32
        &&& le_nat(self.transmission_key) < fq_modulus()
        &&& self.asset_id < fq_modulus()
        &&& self.note_blinding < fq_modulus()
    }
}

/// The bytes that a note with the given contents is written as.
pub open spec fn encode(note: NoteContents) -> Seq<u8> {
    seq![NOTE_TYPE] + note.diversifier + le_bytes(note.amount as nat, 8) + le_bytes(
        note.asset_id,
        32,
    ) + le_bytes(note.note_blinding, 32) + note.transmission_key
}

/// The contents of the note that is written as the given bytes, or why there is none.
pub open spec fn decode(bytes: Seq<u8>) -> Result<NoteContents, Error> {
    if bytes.len() != NOTE_LEN_BYTES {
        Err(Error::NoteDeserializationError)
    } else if bytes[0] != NOTE_TYPE {
        Err(Error::NoteTypeUnsupported)
    } else if le_nat(bytes.subrange(20, 52)) >= fq_modulus() {
        Err(Error::NoteDeserializationError)
    } else if le_nat(bytes.subrange(52, 84)) >= fq_modulus() {
        Err(Error::NoteDeserializationError)
    } else if le_nat(bytes.subrange(84, 116)) >= fq_modulus() {
        Err(Error::InvalidTransmissionKey)
    } else {
        Ok(
            NoteContents {
                diversifier: bytes.subrange(1, 12),
                transmission_key: bytes.subrange(84, 116),
                amount: le_nat(bytes.subrange(12, 20)) as u64,
                asset_id: le_nat(bytes.subrange(20, 52)),
                note_blinding: le_nat(bytes.subrange(52, 84)),
            },
        )
    }
}

/// The nonce used for note encryption: twelve zero bytes.
pub open spec fn encryption_nonce() -> Seq<u8> {
    Seq::new(12, |i: int| 0u8)
}

/// The key that a note is encrypted with: the hash of the shared secret and the ephemeral public
/// key.
pub open spec fn symmetric_key(shared_secret: Seq<u8>, epk: Seq<u8>) -> Seq<u8> {
    blake2b_hash(32, Seq::empty(), shared_secret + epk)
}

/// The ephemeral public key that belongs to a note encrypted under the ephemeral secret key
/// `esk`.
pub open spec fn ephemeral_public(note: NoteContents, esk: nat) -> Seq<u8> {
    decaf377_mul(esk, generator_of(note.diversifier))
}

/// The ciphertext of a note under the ephemeral secret key `esk`.
pub open spec fn encryption(note: NoteContents, esk: nat) -> Seq<u8> {
    chacha20poly1305_seal(encryption_key(note, esk), encryption_nonce(), encode(note))
}

/// The key that a note is encrypted with under the ephemeral secret key `esk`.
pub open spec fn encryption_key(note: NoteContents, esk: nat) -> Seq<u8> {
    symmetric_key(decaf377_mul(esk, note.transmission_key), ephemeral_public(note, esk))
}

/// Whether the transmission key of a note is the one that belongs to the incoming viewing key
/// `ivk` and the note's diversifier.
pub open spec fn is_owned_by(note: NoteContents, ivk: nat) -> bool {
    &&& ivk < fr_modulus()
    &&& note.transmission_key == decaf377_mul(ivk, generator_of(note.diversifier))
}

/// What is read from the plaintext of a ciphertext, where the cipher gave one.
pub open spec fn opening(plaintext: Option<Seq<u8>>) -> Result<NoteContents, Error> {
    match plaintext {
        None => Err(Error::DecryptionError),
        Some(bytes) => match decode(bytes) {
            Err(_) => Err(Error::DecryptionError),
            Ok(note) => Ok(note),
        },
    }
}

/// What the incoming viewing key `ivk` reads from a ciphertext that came with the ephemeral public
/// key `epk`.
pub open spec fn decryption(ciphertext: Seq<u8>, ivk: nat, epk: Seq<u8>) -> Result<
    NoteContents,
    Error,
> {
    if ciphertext.len() != NOTE_CIPHERTEXT_BYTES {
        Err(Error::DecryptionError)
    } else {
        match ka::agreement(ivk, epk) {
            None => Err(Error::DecryptionError),
            Some(shared_secret) => opening(
                chacha20poly1305_open(
                    symmetric_key(shared_secret, epk),
                    encryption_nonce(),
                    ciphertext,
                ),
            ),
        }
    }
}

/// The key that an outgoing cipher key is encrypted with: the hash of the outgoing viewing key,
/// the value commitment, the note commitment and the ephemeral public key.
pub open spec fn outgoing_cipher_key(
    ovk: Seq<u8>,
    cv: Seq<u8>,
    cm: Seq<u8>,
    epk: Seq<u8>,
) -> Seq<u8> {
    blake2b_hash(32, Seq::empty(), ovk + cv + cm + epk)
}

/// What an outgoing cipher key lets its owner learn: the transmission key of the note and the
/// ephemeral secret key.
pub open spec fn outgoing_plaintext(note: NoteContents, esk: nat) -> Seq<u8> {
    note.transmission_key + le_bytes(esk, 32)
}

/// The ASCII bytes of `penumbra.notecommit`.
pub open spec fn notecommit_label() -> Seq<u8> {
    seq![
        0x70u8, 0x65, 0x6e, 0x75, 0x6d, 0x62, 0x72, 0x61, 0x2e,
        0x6e, 0x6f, 0x74, 0x65, 0x63, 0x6f, 0x6d, 0x6d, 0x69, 0x74,
    ]
}

/// The domain separator used to generate note commitments.
pub open spec fn notecommit_domain_sep() -> nat {
    le_nat(blake2b_hash(64, Seq::empty(), notecommit_label())) % fq_modulus()
}

/// The commitment to the parts of a note.
pub open spec fn commitment_to(
    note_blinding: nat,
    amount: u64,
    asset_id: nat,
    diversified_generator: Seq<u8>,
    transmission_key_s: nat,
) -> nat {
    poseidon377_hash_5(
        notecommit_domain_sep(),
        note_blinding,
        amount as nat,
        asset_id,
        le_nat(diversified_generator),
        transmission_key_s,
    )
}

/// The commitment to a note.
pub open spec fn note_commitment(note: NoteContents) -> nat {
    commitment_to(
        note.note_blinding,
        note.amount,
        note.asset_id,
        generator_of(note.diversifier),
        le_nat(note.transmission_key),
    )
}

/// A commitment to a note.
#[derive(Clone, Copy, Debug, PartialEq, Eq, Hash)]
pub struct Commitment(pub Fq);

/// A plaintext Penumbra note.
#[derive(Debug, PartialEq, Eq)]
pub struct Note {
    /// The typed value recorded by this note.
    value: Value,
    /// The diversifier of the address controlling this note.
    diversifier: Diversifier,
    /// The diversified transmission key of the address controlling this note.
    /// Every `Note` is constructed with a key whose bytes are those of a field element,
    /// its s-component (the `ka::Public` does not validate the curve point until it is
    /// used, since validation is not free).
    transmission_key: ka::Public,
    /// A blinding factor that acts as a commitment trapdoor.
    note_blinding: Fq,
}

impl Clone for Note {
    fn clone(&self) -> (note: Note)
        ensures
            note == *self,
    {
        proof {
            use_type_invariant(self);
        }
        Note {
            value: self.value,
            diversifier: self.diversifier,
            transmission_key: self.transmission_key,
            note_blinding: self.note_blinding,
        }
    }
}

impl View for Note {
    type V = NoteContents;

    closed spec fn view(&self) -> NoteContents {
        NoteContents {
            diversifier: self.diversifier.0@,
            transmission_key: self.transmission_key.0@,
            amount: self.value.amount,
            asset_id: self.value.asset_id.0@,
            note_blinding: self.note_blinding@,
        }
    }
}

impl Note {
    /// The contents are those of a note: the transmission key's bytes are those of a field element.
    #[verifier::type_invariant]
    pub open spec fn wf(self) -> bool {
        self@.wf()
    }

    /// The note with the given parts, unless the transmission key's bytes are not those of a
    /// field element.
    pub fn from_parts(
        diversifier: Diversifier,
        transmission_key: ka::Public,
        value: Value,
        note_blinding: Fq,
    ) -> (result: Result<Note, Error>)
        ensures
            result is Ok <==> le_nat(transmission_key.0@) < fq_modulus(),
            result matches Ok(note) ==> note.wf() && note@ == (NoteContents {
                diversifier: diversifier.0@,
                transmission_key: transmission_key.0@,
                amount: value.amount,
                asset_id: value.asset_id.0@,
                note_blinding: note_blinding@,
            }),
            result matches Err(e) ==> e == Error::InvalidTransmissionKey,
    {
        proof {
            use_type_invariant(&value.asset_id.0);
            use_type_invariant(&note_blinding);
        }
        match Fq::from_bytes(transmission_key.0) {
            Ok(_) => Ok(Note { value, diversifier, transmission_key, note_blinding }),
            Err(_) => Err(Error::InvalidTransmissionKey),
        }
    }

    /// A note representing the given value for the given destination address, with the given
    /// blinding factor.
    pub fn addressed(address: &Address, value: Value, note_blinding: Fq) -> (note: Note)
        ensures
            note.wf(),
            note@ == (NoteContents {
                diversifier: address.spec_diversifier(),
                transmission_key: address.spec_transmission_key(),
                amount: value.amount,
                asset_id: value.asset_id.0@,
                note_blinding: note_blinding@,
            }),
    {
        proof {
            use_type_invariant(address);
        }
        let diversifier = *address.diversifier();
        let transmission_key = *address.transmission_key();
        match Note::from_parts(diversifier, transmission_key, value, note_blinding) {
            Ok(note) => note,
            // The transmission key in an address is always valid.
            Err(_) => vstd::pervasive::unreached(),
        }
    }

    /// Generate a fresh note representing the given value for the given destination address, with
    /// a random blinding factor.
    pub fn generate(rng: &mut rand_core::OsRng, address: &Address, value: Value) -> (note: Note)
        ensures
            note.wf(),
            note@ == (NoteContents {
                diversifier: address.spec_diversifier(),
                transmission_key: address.spec_transmission_key(),
                amount: value.amount,
                asset_id: value.asset_id.0@,
                note_blinding: note@.note_blinding,
            }),
    {
        let note_blinding = Fq::rand(rng);
        Note::addressed(address, value, note_blinding)
    }

    /// The generator that the note's diversifier stands for.
    pub fn diversified_generator(&self) -> (generator: Element)
        ensures
            generator.wf(),
            generator@ == generator_of(self@.diversifier),
    {
        self.diversifier.diversified_generator()
    }

    /// The transmission key of the note's address.
    pub fn transmission_key(&self) -> (transmission_key: ka::Public)
        ensures
            transmission_key.0@ == self@.transmission_key,
    {
        self.transmission_key
    }

    /// The s-component of the transmission key: the field element that its bytes write.
    pub fn transmission_key_s(&self) -> (s: Fq)
        ensures
            s.wf(),
            s@ == le_nat(self@.transmission_key),
    {
        proof {
            use_type_invariant(self);
        }
        match Fq::from_bytes(self.transmission_key.0) {
            Ok(s) => s,
            Err(_) => vstd::pervasive::unreached(),
        }
    }

    /// The diversifier of the note's address.
    pub fn diversifier(&self) -> (diversifier: Diversifier)
        ensures
            diversifier.0@ == self@.diversifier,
    {
        self.diversifier
    }

    /// The blinding factor of the note.
    pub fn note_blinding(&self) -> (note_blinding: Fq)
        ensures
            note_blinding.wf(),
            note_blinding@ == self@.note_blinding,
    {
        proof {
            use_type_invariant(self);
        }
        self.note_blinding
    }

    /// The value that the note records.
    pub fn value(&self) -> (value: Value)
        ensures
            value.amount == self@.amount,
            value.asset_id.0@ == self@.asset_id,
    {
        self.value
    }

    /// The asset that the note records an amount of.
    pub fn asset_id(&self) -> (asset_id: asset::Id)
        ensures
            asset_id.0@ == self@.asset_id,
    {
        self.value.asset_id
    }

    /// The amount that the note records.
    pub fn amount(&self) -> (amount: u64)
        ensures
            amount == self@.amount,
    {
        self.value.amount
    }

    /// Encrypt a note, returning its ciphertext. The note's transmission key has to be the
    /// encoding of a group element.
    ///
    /// The key that the note is encrypted with opens the ciphertext to the note's bytes. The
    /// viewing key that the transmission key belongs to reads the note back from the ciphertext
    /// and the ephemeral public key, and reads nothing from a ciphertext with another tag.
    pub fn encrypt(&self, esk: &ka::Secret) -> (ciphertext: [u8; NOTE_CIPHERTEXT_BYTES])
        requires
            decaf377_decodes(self@.transmission_key),
        ensures
            ciphertext@ == encryption(self@, esk@),
            chacha20poly1305_open(encryption_key(self@, esk@), encryption_nonce(), ciphertext@)
                == Some(encode(self@)),
            forall|ivk: nat|
                is_owned_by(self@, ivk) ==> #[trigger] decryption(
                    ciphertext@,
                    ivk,
                    ephemeral_public(self@, esk@),
                ) == Ok::<NoteContents, Error>(self@),
            forall|ivk: nat, other: Seq<u8>|
                is_owned_by(self@, ivk) && differ_in_tag(ciphertext@, other)
                    ==> #[trigger] decryption(other, ivk, ephemeral_public(self@, esk@)) == Err::<
                    NoteContents,
                    Error,
                >(Error::DecryptionError),
    {
        let epk = esk.diversified_public(&self.diversified_generator());
        let shared_secret = match esk.key_agreement_with(&self.transmission_key()) {
            Ok(shared_secret) => shared_secret,
            Err(_) => vstd::pervasive::unreached(),
        };
        let key = derive_symmetric_key(&shared_secret, &epk);
        let note_plaintext: Vec<u8> = Vec::from(self);
        proof {
            use_type_invariant(self);
            lemma_encode_len(self@);
        }
        let encryption_result = match encrypt(
            &key,
            &note_encryption_nonce(),
            note_plaintext.as_slice(),
        ) {
            Some(ciphertext) => ciphertext,
            None => vstd::pervasive::unreached(),
        };
        let ciphertext: [u8; NOTE_CIPHERTEXT_BYTES] = array_at::<NOTE_CIPHERTEXT_BYTES>(
            encryption_result.as_slice(),
            0,
        );
        proof {
            assert(ciphertext@ =~= encryption_result@);
            lemma_decode_of_encode(self@);
            assert(ephemeral_public(self@, esk@) == epk.0@);
        }
        ciphertext
    }

    /// Encrypt a note, unless its transmission key is not the encoding of a group element.
    pub fn try_encrypt(&self, esk: &ka::Secret) -> (result: Option<[u8; NOTE_CIPHERTEXT_BYTES]>)
        ensures
            result is Some <==> decaf377_decodes(self@.transmission_key),
            result matches Some(ciphertext) ==> ciphertext@ == encryption(self@, esk@),
            result matches Some(ciphertext) ==> chacha20poly1305_open(
                encryption_key(self@, esk@),
                encryption_nonce(),
                ciphertext@,
            ) == Some(encode(self@)),
            result matches Some(ciphertext) ==> forall|ivk: nat|
                is_owned_by(self@, ivk) ==> #[trigger] decryption(
                    ciphertext@,
                    ivk,
                    ephemeral_public(self@, esk@),
                ) == Ok::<NoteContents, Error>(self@),
            result matches Some(ciphertext) ==> forall|ivk: nat, other: Seq<u8>|
                is_owned_by(self@, ivk) && differ_in_tag(ciphertext@, other)
                    ==> #[trigger] decryption(other, ivk, ephemeral_public(self@, esk@)) == Err::<
                    NoteContents,
                    Error,
                >(Error::DecryptionError),
    {
        match Element::decompress(self.transmission_key.0) {
            Ok(_) => Some(self.encrypt(esk)),
            Err(_) => None,
        }
    }

    /// Generate encrypted outgoing cipher key for use with this note.
    ///
    /// The key that it is encrypted with gives the transmission key and the ephemeral secret key
    /// back.
    pub fn encrypt_key(
        &self,
        esk: &ka::Secret,
        ovk: &OutgoingViewingKey,
        cv: value::Commitment,
    ) -> (wrapped: [u8; OVK_WRAPPED_LEN_BYTES])
        ensures
            wrapped@ == chacha20poly1305_seal(
                outgoing_cipher_key(
                    ovk.0@,
                    cv.0@,
                    le_bytes(note_commitment(self@), 32),
                    ephemeral_public(self@, esk@),
                ),
                encryption_nonce(),
                outgoing_plaintext(self@, esk@),
            ),
            chacha20poly1305_open(
                outgoing_cipher_key(
                    ovk.0@,
                    cv.0@,
                    le_bytes(note_commitment(self@), 32),
                    ephemeral_public(self@, esk@),
                ),
                encryption_nonce(),
                wrapped@,
            ) == Some(outgoing_plaintext(self@, esk@)),
            outgoing_plaintext(self@, esk@).len() == 64,
            outgoing_plaintext(self@, esk@).subrange(0, 32) == self@.transmission_key,
            le_nat(outgoing_plaintext(self@, esk@).subrange(32, 64)) == esk@,
    {
        let cv_bytes = cv.0.compress();
        let cm_bytes = self.commit().0.to_bytes();
        let epk = esk.diversified_public(&self.diversified_generator());

        // Use Blake2b-256 to derive an encryption key `ock` from the outgoing viewing key, the
        // value commitment, the note commitment and the ephemeral public key.
        let mut kdf_input: Vec<u8> = Vec::new();
        extend(&mut kdf_input, &ovk.0);
        extend(&mut kdf_input, &cv_bytes);
        extend(&mut kdf_input, &cm_bytes);
        extend(&mut kdf_input, &epk.0);
        let ock = blake2b_256(kdf_input.as_slice());

        let mut op: Vec<u8> = Vec::new();
        extend(&mut op, &self.transmission_key().0);
        extend(&mut op, &esk.to_bytes());
        proof {
            use_type_invariant(self);
            assert(kdf_input@ =~= ovk.0@ + cv.0@ + le_bytes(note_commitment(self@), 32)
                + ephemeral_public(self@, esk@));
            assert(op@ =~= outgoing_plaintext(self@, esk@));
            use_type_invariant(esk);
            lemma_outgoing_plaintext_parts(self@, esk@);
        }
        let encryption_result = match encrypt(&ock, &note_encryption_nonce(), op.as_slice()) {
            Some(ciphertext) => ciphertext,
            None => vstd::pervasive::unreached(),
        };
        let wrapped: [u8; OVK_WRAPPED_LEN_BYTES] = array_at::<OVK_WRAPPED_LEN_BYTES>(
            encryption_result.as_slice(),
            0,
        );
        proof {
            assert(wrapped@ =~= encryption_result@);
        }
        wrapped
    }

    /// Decrypt a note ciphertext to generate a plaintext `Note`.
    ///
    /// Encrypting the note again with the same key gives the ciphertext back, so that under one key
    /// no two ciphertexts are read as one note. A ciphertext that differs from one that is read in
    /// the tag alone is not read.
    pub fn decrypt(ciphertext: &[u8], ivk: &IncomingViewingKey, epk: &ka::Public) -> (result:
        Result<Note, Error>)
        ensures
            match result {
                Ok(note) => note.wf() && decryption(ciphertext@, ivk@, epk.0@) == Ok::<
                    NoteContents,
                    Error,
                >(note@),
                Err(e) => decryption(ciphertext@, ivk@, epk.0@) == Err::<NoteContents, Error>(e),
            },
            result matches Err(e) ==> e == Error::DecryptionError,
            result matches Ok(note) ==> ciphertext@ == chacha20poly1305_seal(
                symmetric_key(decaf377_mul(ivk@, epk.0@), epk.0@),
                encryption_nonce(),
                encode(note@),
            ),
            result is Ok ==> forall|other: Seq<u8>|
                differ_in_tag(ciphertext@, other) ==> #[trigger] decryption(other, ivk@, epk.0@)
                    == Err::<NoteContents, Error>(Error::DecryptionError),
    {
        if ciphertext.len() != NOTE_CIPHERTEXT_BYTES {
            return Err(Error::DecryptionError);
        }
        let shared_secret = match ivk.key_agreement_with(epk) {
            Ok(shared_secret) => shared_secret,
            Err(_) => return Err(Error::DecryptionError),
        };
        let key = derive_symmetric_key(&shared_secret, epk);
        let plaintext = decrypt(&key, &note_encryption_nonce(), ciphertext);
        proof {
            if plaintext is Some && decode(plaintext->0@) is Ok {
                lemma_encode_of_decode(plaintext->0@);
            }
        }
        Note::from_opening(plaintext)
    }

    /// The note that the plaintext of a ciphertext is read as, where the cipher gave a plaintext.
    pub fn from_opening(plaintext: Option<Vec<u8>>) -> (result: Result<Note, Error>)
        ensures
            plaintext is None ==> result == Err::<Note, Error>(Error::DecryptionError),
            plaintext matches Some(bytes) ==> match result {
                Ok(note) => note.wf() && decode(bytes@) == Ok::<NoteContents, Error>(note@),
                Err(e) => e == Error::DecryptionError && decode(bytes@) is Err,
            },
    {
        match plaintext {
            Some(bytes) => match Note::try_from(bytes.as_slice()) {
                Ok(note) => Ok(note),
                Err(_) => Err(Error::DecryptionError),
            },
            None => Err(Error::DecryptionError),
        }
    }

    /// Create the note commitment for this note.
    pub fn commit(&self) -> (commitment: Commitment)
        ensures
            commitment.0.wf(),
            commitment.0@ == note_commitment(self@),
            commitment.0@ == poseidon377_hash_5(
                notecommit_domain_sep(),
                self@.note_blinding,
                self@.amount as nat,
                self@.asset_id,
                le_nat(generator_of(self@.diversifier)),
                le_nat(self@.transmission_key),
            ),
    {
        self::commitment(
            self.note_blinding,
            self.value,
            self.diversified_generator(),
            self.transmission_key_s(),
        )
    }

    /// The bytes that the note is written as.
    pub fn to_bytes(&self) -> (bytes: [u8; NOTE_LEN_BYTES])
        ensures
            bytes@ == encode(self@),
            bytes@[0] == 0,
            bytes@.subrange(1, 12) == self@.diversifier,
            le_nat(bytes@.subrange(12, 20)) == self@.amount,
            le_nat(bytes@.subrange(20, 52)) == self@.asset_id,
            le_nat(bytes@.subrange(52, 84)) == self@.note_blinding,
            bytes@.subrange(84, 116) == self@.transmission_key,
    {
        proof {
            use_type_invariant(self);
            lemma_encode_parts(self@);
        }
        <[u8; NOTE_LEN_BYTES]>::from(self)
    }
}

/// Create a note commitment from its parts.
pub fn commitment(
    note_blinding: Fq,
    value: Value,
    diversified_generator: Element,
    transmission_key_s: Fq,
) -> (commitment: Commitment)
    ensures
        commitment.0.wf(),
        commitment.0@ == commitment_to(
            note_blinding@,
            value.amount,
            value.asset_id.0@,
            diversified_generator@,
            transmission_key_s@,
        ),
        commitment.0@ == poseidon377_hash_5(
            notecommit_domain_sep(),
            note_blinding@,
            value.amount as nat,
            value.asset_id.0@,
            le_nat(diversified_generator@),
            transmission_key_s@,
        ),
{
    let label: [u8; 19] = [
        0x70, 0x65, 0x6e, 0x75, 0x6d, 0x62, 0x72, 0x61, 0x2e,
        0x6e, 0x6f, 0x74, 0x65, 0x63, 0x6f, 0x6d, 0x6d, 0x69, 0x74,
    ];
    proof {
        assert(label@ =~= notecommit_label());
    }
    let no_personalization: [u8; 0] = [];
    proof {
        assert(no_personalization@ =~= Seq::<u8>::empty());
    }
    let domain_sep = Fq::from_le_bytes_mod_order(
        blake2b(64, &no_personalization, &label).as_slice(),
    );
    let commit = poseidon_hash_5(
        &domain_sep,
        (
            note_blinding,
            Fq::from_u64(value.amount),
            value.asset_id.0,
            diversified_generator.compress_to_field(),
            transmission_key_s,
        ),
    );
    Commitment(commit)
}

/// The nonce used for note encryption.
pub fn note_encryption_nonce() -> (nonce: [u8; 12])
    ensures
        nonce@ == encryption_nonce(),
{
    let nonce: [u8; 12] = [0u8; 12];
    proof {
        assert(nonce@ =~= encryption_nonce());
    }
    nonce
}

/// The 32-byte Blake2b hash of `input`.
fn blake2b_256(input: &[u8]) -> (hash: [u8; 32])
    ensures
        hash@ == blake2b_hash(32, Seq::empty(), input@),
{
    let no_personalization: [u8; 0] = [];
    proof {
        assert(no_personalization@ =~= Seq::<u8>::empty());
    }
    let hash = blake2b(32, &no_personalization, input);
    let array: [u8; 32] = array_at::<32>(hash.as_slice(), 0);
    proof {
        assert(array@ =~= hash@);
    }
    array
}

/// Use Blake2b-256 to derive the symmetric key material for note and memo encryption.
pub fn derive_symmetric_key(shared_secret: &ka::SharedSecret, epk: &ka::Public) -> (key: [u8; 32])
    ensures
        key@ == symmetric_key(shared_secret.0@, epk.0@),
        key@ == blake2b_hash(32, Seq::empty(), shared_secret.0@ + epk.0@),
{
    let mut kdf_input: Vec<u8> = Vec::new();
    extend(&mut kdf_input, &shared_secret.0);
    extend(&mut kdf_input, &epk.0);
    proof {
        assert(kdf_input@ =~= shared_secret.0@ + epk.0@);
    }
    blake2b_256(kdf_input.as_slice())
}

impl From<&Note> for [u8; NOTE_LEN_BYTES] {
    fn from(note: &Note) -> (bytes: [u8; NOTE_LEN_BYTES])
        ensures
            bytes@ == encode(note@),
    {
        let mut bytes: [u8; NOTE_LEN_BYTES] = [0u8; NOTE_LEN_BYTES];
        bytes[0] = NOTE_TYPE;
        copy_at(&mut bytes, 1, &note.diversifier.0);
        copy_at(&mut bytes, 12, &u64_to_le_bytes(note.value.amount));
        copy_at(&mut bytes, 20, &note.value.asset_id.0.to_bytes());
        copy_at(&mut bytes, 52, &note.note_blinding.to_bytes());
        copy_at(&mut bytes, 84, &note.transmission_key.0);
        proof {
            assert(bytes@ =~= encode(note@));
        }
        bytes
    }
}

impl FromSpecImpl<&Note> for [u8; NOTE_LEN_BYTES] {
    open spec fn obeys_from_spec() -> bool {
        false
    }

    open spec fn from_spec(note: &Note) -> [u8; NOTE_LEN_BYTES] {
        arbitrary()
    }
}

impl From<Note> for [u8; NOTE_LEN_BYTES] {
    fn from(note: Note) -> (bytes: [u8; NOTE_LEN_BYTES])
        ensures
            bytes@ == encode(note@),
    {
        <[u8; NOTE_LEN_BYTES]>::from(&note)
    }
}

impl FromSpecImpl<Note> for [u8; NOTE_LEN_BYTES] {
    open spec fn obeys_from_spec() -> bool {
        false
    }

    open spec fn from_spec(note: Note) -> [u8; NOTE_LEN_BYTES] {
        arbitrary()
    }
}

impl From<&Note> for Vec<u8> {
    fn from(note: &Note) -> (bytes: Vec<u8>)
        ensures
            bytes@ == encode(note@),
    {
        let mut bytes: Vec<u8> = vec![NOTE_TYPE];
        extend(&mut bytes, &note.diversifier.0);
        extend(&mut bytes, &u64_to_le_bytes(note.value.amount));
        extend(&mut bytes, &note.value.asset_id.0.to_bytes());
        extend(&mut bytes, &note.note_blinding.to_bytes());
        extend(&mut bytes, &note.transmission_key.0);
        proof {
            assert(bytes@ =~= encode(note@));
        }
        bytes
    }
}

impl FromSpecImpl<&Note> for Vec<u8> {
    open spec fn obeys_from_spec() -> bool {
        false
    }

    open spec fn from_spec(note: &Note) -> Vec<u8> {
        arbitrary()
    }
}

impl TryFrom<&[u8]> for Note {
    type Error = Error;

    fn try_from(bytes: &[u8]) -> (result: Result<Note, Error>)
        ensures
            match result {
                Ok(note) => note.wf() && decode(bytes@) == Ok::<NoteContents, Error>(note@),
                Err(e) => decode(bytes@) == Err::<NoteContents, Error>(e),
            },
            result matches Ok(note) ==> {
                &&& note@.diversifier == bytes@.subrange(1, 12)
                &&& note@.amount == le_nat(bytes@.subrange(12, 20))
                &&& note@.asset_id == le_nat(bytes@.subrange(20, 52))
                &&& note@.note_blinding == le_nat(bytes@.subrange(52, 84))
                &&& note@.transmission_key == bytes@.subrange(84, 116)
            },
    {
        if bytes.len() != NOTE_LEN_BYTES {
            return Err(Error::NoteDeserializationError);
        }
        if bytes[0] != NOTE_TYPE {
            return Err(Error::NoteTypeUnsupported);
        }
        let diversifier = Diversifier(array_at::<11>(bytes, 1));
        let amount: u64 = u64_from_le_bytes(&array_at::<8>(bytes, 12));
        let asset_id = match Fq::from_bytes(array_at::<32>(bytes, 20)) {
            Ok(id) => asset::Id(id),
            Err(_) => return Err(Error::NoteDeserializationError),
        };
        let note_blinding = match Fq::from_bytes(array_at::<32>(bytes, 52)) {
            Ok(blinding) => blinding,
            Err(_) => return Err(Error::NoteDeserializationError),
        };
        let transmission_key = ka::Public(array_at::<32>(bytes, 84));
        Note::from_parts(diversifier, transmission_key, Value { amount, asset_id }, note_blinding)
    }
}

impl TryFromSpecImpl<&[u8]> for Note {
    open spec fn obeys_try_from_spec() -> bool {
        false
    }

    open spec fn try_from_spec(bytes: &[u8]) -> Result<Note, Error> {
        arbitrary()
    }
}

impl TryFrom<[u8; NOTE_LEN_BYTES]> for Note {
    type Error = Error;

    fn try_from(bytes: [u8; NOTE_LEN_BYTES]) -> (result: Result<Note, Error>)
        ensures
            match result {
                Ok(note) => note.wf() && decode(bytes@) == Ok::<NoteContents, Error>(note@),
                Err(e) => decode(bytes@) == Err::<NoteContents, Error>(e),
            },
    {
        Note::try_from(bytes.as_slice())
    }
}

impl TryFromSpecImpl<[u8; NOTE_LEN_BYTES]> for Note {
    open spec fn obeys_try_from_spec() -> bool {
        false
    }

    open spec fn try_from_spec(bytes: [u8; NOTE_LEN_BYTES]) -> Result<Note, Error> {
        arbitrary()
    }
}

/// A note is written as 116 bytes.
pub proof fn lemma_encode_len(note: NoteContents)
    requires
        note.wf(),
    ensures
        encode(note).len() == NOTE_LEN_BYTES,
{
    lemma_le_bytes_len(note.amount as nat, 8);
    lemma_le_bytes_len(note.asset_id, 32);
    lemma_le_bytes_len(note.note_blinding, 32);
}

/// Reading the bytes that a note was written as gives the note back.
pub proof fn lemma_decode_of_encode(note: NoteContents)
    requires
        note.wf(),
    ensures
        decode(encode(note)) == Ok::<NoteContents, Error>(note),
{
    let bytes = encode(note);
    lemma_encode_len(note);
    lemma_le_bytes_len(note.amount as nat, 8);
    lemma_le_bytes_len(note.asset_id, 32);
    lemma_le_bytes_len(note.note_blinding, 32);
    lemma_pow_256_8();
    lemma_fq_modulus_fits();
    lemma_read_of_write(note.amount as nat, 8);
    lemma_read_of_write(note.asset_id, 32);
    lemma_read_of_write(note.note_blinding, 32);
    assert(bytes.subrange(1, 12) =~= note.diversifier);
    assert(bytes.subrange(12, 20) =~= le_bytes(note.amount as nat, 8));
    assert(bytes.subrange(20, 52) =~= le_bytes(note.asset_id, 32));
    assert(bytes.subrange(52, 84) =~= le_bytes(note.note_blinding, 32));
    assert(bytes.subrange(84, 116) =~= note.transmission_key);
}

/// Bytes that are read as a note are the bytes that the note is written as, so that no note is
/// read from two byte strings.
pub proof fn lemma_encode_of_decode(bytes: Seq<u8>)
    requires
        decode(bytes) is Ok,
    ensures
        decode(bytes)->Ok_0.wf(),
        encode(decode(bytes)->Ok_0) == bytes,
{
    let note = decode(bytes)->Ok_0;
    lemma_le_nat_bound(bytes.subrange(12, 20));
    lemma_pow_256_8();
    lemma_write_of_read(bytes.subrange(12, 20));
    lemma_write_of_read(bytes.subrange(20, 52));
    lemma_write_of_read(bytes.subrange(52, 84));
    assert(encode(note) =~= bytes);
}

/// Notes are told apart by their contents.
pub proof fn lemma_note_view_injective(a: Note, b: Note)
    requires
        a@ == b@,
    ensures
        a == b,
{
    lemma_fq_view_injective(a.value.asset_id.0, b.value.asset_id.0);
    lemma_fq_view_injective(a.note_blinding, b.note_blinding);
    assert(a.diversifier.0 =~= b.diversifier.0);
    assert(a.transmission_key.0 =~= b.transmission_key.0);
}

/// Each part of a note has its place in the bytes that the note is written as: the type, the
/// diversifier, the amount, the asset, the blinding factor and the transmission key, the numbers
/// least significant byte first.
pub proof fn lemma_encode_parts(note: NoteContents)
    requires
        note.wf(),
    ensures
        encode(note).len() == 116,
        encode(note)[0] == 0,
        encode(note).subrange(1, 12) == note.diversifier,
        le_nat(encode(note).subrange(12, 20)) == note.amount,
        le_nat(encode(note).subrange(20, 52)) == note.asset_id,
        le_nat(encode(note).subrange(52, 84)) == note.note_blinding,
        encode(note).subrange(84, 116) == note.transmission_key,
{
    lemma_encode_len(note);
    lemma_decode_of_encode(note);
    lemma_decode_accepts(encode(note));
}

/// Bytes are read as a note exactly if there are 116 of them, the first is zero, and the asset, the
/// blinding factor and the transmission key in their places write field elements. Each part of the
/// note is then the one in its place.
pub proof fn lemma_decode_accepts(bytes: Seq<u8>)
    ensures
        decode(bytes) is Ok <==> {
            &&& bytes.len() == 116
            &&& bytes[0] == 0
            &&& le_nat(bytes.subrange(20, 52)) < fq_modulus()
            &&& le_nat(bytes.subrange(52, 84)) < fq_modulus()
            &&& le_nat(bytes.subrange(84, 116)) < fq_modulus()
        },
        decode(bytes) matches Ok(note) ==> {
            &&& note.diversifier == bytes.subrange(1, 12)
            &&& note.amount == le_nat(bytes.subrange(12, 20))
            &&& note.asset_id == le_nat(bytes.subrange(20, 52))
            &&& note.note_blinding == le_nat(bytes.subrange(52, 84))
            &&& note.transmission_key == bytes.subrange(84, 116)
        },
{
    if bytes.len() == 116 {
        lemma_le_nat_bound(bytes.subrange(12, 20));
        lemma_pow_256_8();
    }
}

/// Of bytes that are not read as a note the error says why: the type is told if the length is
/// right, and the transmission key if it is the only fault.
pub proof fn lemma_decode_rejects(bytes: Seq<u8>)
    ensures
        decode(bytes) == Err::<NoteContents, Error>(Error::NoteTypeUnsupported) <==> bytes.len()
            == 116 && bytes[0] != 0,
        decode(bytes) == Err::<NoteContents, Error>(Error::InvalidTransmissionKey) <==> {
            &&& bytes.len() == 116
            &&& bytes[0] == 0
            &&& le_nat(bytes.subrange(20, 52)) < fq_modulus()
            &&& le_nat(bytes.subrange(52, 84)) < fq_modulus()
            &&& le_nat(bytes.subrange(84, 116)) >= fq_modulus()
        },
        decode(bytes) matches Err(e) ==> e == Error::NoteTypeUnsupported || e
            == Error::InvalidTransmissionKey || e == Error::NoteDeserializationError,
{
}

/// The symmetric key is the 32-byte hash of the one string of 64 bytes that begins with the shared
/// secret and ends with the ephemeral public key.
pub proof fn lemma_symmetric_key_input(shared_secret: Seq<u8>, epk: Seq<u8>, input: Seq<u8>)
    requires
        input.len() == 64,
        input.subrange(0, 32) == shared_secret,
        input.subrange(32, 64) == epk,
    ensures
        symmetric_key(shared_secret, epk) == blake2b_hash(32, Seq::empty(), input),
{
    assert(input =~= shared_secret + epk);
}

/// Two pairs of a shared secret and an ephemeral public key have the same symmetric key only if
/// they are the same pair, unless the hash collides on the strings that the pairs make up.
pub proof fn lemma_symmetric_key_separates(
    shared_a: Seq<u8>,
    epk_a: Seq<u8>,
    shared_b: Seq<u8>,
    epk_b: Seq<u8>,
)
    requires
        shared_a.len() == 32,
        epk_a.len() == 32,
        shared_b.len() == 32,
        epk_b.len() == 32,
        shared_a + epk_a != shared_b + epk_b ==> blake2b_hash(
            32,
            Seq::empty(),
            shared_a + epk_a,
        ) != blake2b_hash(32, Seq::empty(), shared_b + epk_b),
    ensures
        symmetric_key(shared_a, epk_a) == symmetric_key(shared_b, epk_b) <==> shared_a == shared_b
            && epk_a == epk_b,
{
    let a = shared_a + epk_a;
    let b = shared_b + epk_b;
    if a == b {
        assert(a.subrange(0, 32) =~= shared_a);
        assert(b.subrange(0, 32) =~= shared_b);
        assert(a.subrange(32, 64) =~= epk_a);
        assert(b.subrange(32, 64) =~= epk_b);
    }
}

/// A note is owned by exactly the viewing keys, among the scalars, that give its transmission key
/// with the generator of its diversifier.
pub proof fn lemma_is_owned_by(note: NoteContents, ivk: nat)
    ensures
        is_owned_by(note, ivk) <==> ivk < fr_modulus() && decaf377_mul(
            ivk,
            generator_of(note.diversifier),
        ) == note.transmission_key,
{
}

/// A note is encrypted, under twelve zero bytes, with the hash of the secret that the ephemeral
/// key shares with the transmission key, followed by the ephemeral public key, which is that of the
/// generator of the note's diversifier; what is encrypted are the bytes of the note.
pub proof fn lemma_encryption_inputs(note: NoteContents, esk: nat, input: Seq<u8>, nonce: Seq<u8>)
    requires
        input.len() == 64,
        input.subrange(0, 32) == decaf377_mul(esk, note.transmission_key),
        input.subrange(32, 64) == decaf377_mul(esk, generator_of(note.diversifier)),
        nonce.len() == 12,
        forall|i: int| 0 <= i < 12 ==> nonce[i] == 0,
    ensures
        ephemeral_public(note, esk) == input.subrange(32, 64),
        encryption_key(note, esk) == blake2b_hash(32, Seq::empty(), input),
        encryption(note, esk) == chacha20poly1305_seal(
            blake2b_hash(32, Seq::empty(), input),
            nonce,
            encode(note),
        ),
{
    assert(nonce =~= encryption_nonce());
    lemma_symmetric_key_input(input.subrange(0, 32), input.subrange(32, 64), input);
}

/// A ciphertext is read as a note exactly if it has 132 bytes, the ephemeral public key is the
/// encoding of a group element, and the cipher opens it, under twelve zero bytes and with the hash
/// of the shared secret followed by the ephemeral public key, to the bytes of that note.
pub proof fn lemma_decryption_inputs(
    ciphertext: Seq<u8>,
    ivk: nat,
    epk: Seq<u8>,
    input: Seq<u8>,
    nonce: Seq<u8>,
)
    requires
        input.len() == 64,
        input.subrange(0, 32) == decaf377_mul(ivk, epk),
        input.subrange(32, 64) == epk,
        nonce.len() == 12,
        forall|i: int| 0 <= i < 12 ==> nonce[i] == 0,
    ensures
        forall|note: NoteContents|
            note.wf() ==> (#[trigger] decryption(ciphertext, ivk, epk) == Ok::<NoteContents, Error>(
                note,
            ) <==> {
                &&& ciphertext.len() == 132
                &&& decaf377_decodes(epk)
                &&& chacha20poly1305_open(blake2b_hash(32, Seq::empty(), input), nonce, ciphertext)
                    == Some(#[trigger] encode(note))
            }),
{
    assert(nonce =~= encryption_nonce());
    lemma_symmetric_key_input(input.subrange(0, 32), input.subrange(32, 64), input);
    assert forall|note: NoteContents| note.wf() implies (#[trigger] decryption(
        ciphertext,
        ivk,
        epk,
    ) == Ok::<NoteContents, Error>(note) <==> {
        &&& ciphertext.len() == 132
        &&& decaf377_decodes(epk)
        &&& chacha20poly1305_open(blake2b_hash(32, Seq::empty(), input), nonce, ciphertext) == Some(
            #[trigger] encode(note),
        )
    }) by {
        lemma_decode_of_encode(note);
        if decryption(ciphertext, ivk, epk) == Ok::<NoteContents, Error>(note) {
            let opened = chacha20poly1305_open(
                blake2b_hash(32, Seq::empty(), input),
                nonce,
                ciphertext,
            );
            lemma_encode_of_decode(opened->0);
        }
    }
}

/// A ciphertext of another length than 132 is not read, nor one that comes with an ephemeral public
/// key that is not the encoding of a group element; whatever is not read gives a decryption error,
/// and whatever is read is a note.
pub proof fn lemma_decryption_rejects(ciphertext: Seq<u8>, ivk: nat, epk: Seq<u8>)
    ensures
        ciphertext.len() != 132 ==> decryption(ciphertext, ivk, epk) is Err,
        !decaf377_decodes(epk) ==> decryption(ciphertext, ivk, epk) is Err,
        decryption(ciphertext, ivk, epk) matches Err(e) ==> e == Error::DecryptionError,
        decryption(ciphertext, ivk, epk) matches Ok(note) ==> note.wf(),
{
    if decryption(ciphertext, ivk, epk) is Ok {
        let opened = chacha20poly1305_open(
            symmetric_key(decaf377_mul(ivk, epk), epk),
            encryption_nonce(),
            ciphertext,
        );
        lemma_encode_of_decode(opened->0);
    }
}

/// The outgoing cipher key is the 32-byte hash of the one string of 128 bytes made up of the
/// outgoing viewing key, the value commitment, the note commitment and the ephemeral public key.
pub proof fn lemma_outgoing_cipher_key_input(
    ovk: Seq<u8>,
    cv: Seq<u8>,
    cm: Seq<u8>,
    epk: Seq<u8>,
    input: Seq<u8>,
)
    requires
        input.len() == 128,
        input.subrange(0, 32) == ovk,
        input.subrange(32, 64) == cv,
        input.subrange(64, 96) == cm,
        input.subrange(96, 128) == epk,
    ensures
        outgoing_cipher_key(ovk, cv, cm, epk) == blake2b_hash(32, Seq::empty(), input),
{
    assert(input =~= ovk + cv + cm + epk);
}

/// What an outgoing cipher key opens determines both keys: the first 32 bytes are the transmission
/// key, and the last 32 write the ephemeral secret key, least significant byte first.
pub proof fn lemma_outgoing_plaintext_parts(note: NoteContents, esk: nat)
    requires
        note.wf(),
        esk < fr_modulus(),
    ensures
        outgoing_plaintext(note, esk).len() == 64,
        outgoing_plaintext(note, esk).subrange(0, 32) == note.transmission_key,
        le_nat(outgoing_plaintext(note, esk).subrange(32, 64)) == esk,
{
    lemma_le_bytes_len(esk, 32);
    lemma_fr_modulus_fits();
    lemma_read_of_write(esk, 32);
    let op = outgoing_plaintext(note, esk);
    assert(op.subrange(0, 32) =~= note.transmission_key);
    assert(op.subrange(32, 64) =~= le_bytes(esk, 32));
}

/// From the two halves of what an outgoing cipher key opens, and the diversifier, the sender
/// computes the ephemeral public key of the note and the key that the note was encrypted with.
pub proof fn lemma_sender_reads_back(note: NoteContents, esk: nat)
    requires
        note.wf(),
        esk < fr_modulus(),
    ensures
        ({
            let opened = outgoing_plaintext(note, esk);
            let recovered = le_nat(opened.subrange(32, 64));
            let epk = decaf377_mul(recovered, generator_of(note.diversifier));
            &&& epk == ephemeral_public(note, esk)
            &&& symmetric_key(decaf377_mul(recovered, opened.subrange(0, 32)), epk)
                == encryption_key(note, esk)
        }),
{
    lemma_outgoing_plaintext_parts(note, esk);
}

/// The domain separator of note commitments is the remainder `x`, modulo the number of field
/// elements, of the 64-byte hash of the label spelled `penumbra.notecommit`.
pub proof fn lemma_notecommit_domain_sep(label: Seq<u8>, k: int, x: nat)
    requires
        label.len() == "penumbra.notecommit"@.len(),
        forall|i: int|
            0 <= i < label.len() ==> #[trigger] label[i] as int == "penumbra.notecommit"@[i] as int,
        le_nat(blake2b_hash(64, Seq::empty(), label)) == k * fq_modulus() + x,
        x < fq_modulus(),
    ensures
        notecommit_domain_sep() == x,
{
    reveal_strlit("penumbra.notecommit");
    assert(label =~= notecommit_label());
    lemma_fundamental_div_mod_converse(
        le_nat(blake2b_hash(64, Seq::empty(), label)) as int,
        fq_modulus() as int,
        k,
        x as int,
    );
}

/// A commitment binds its parts: two lists of a blinding factor, an amount, an asset, a generator
/// and the field element of a transmission key have the same commitment only if they are the same
/// list, unless the hash collides on the field elements that the lists stand for.
pub proof fn lemma_commitment_binds(
    blinding_a: nat,
    amount_a: u64,
    asset_a: nat,
    generator_a: Seq<u8>,
    key_a: nat,
    blinding_b: nat,
    amount_b: u64,
    asset_b: nat,
    generator_b: Seq<u8>,
    key_b: nat,
)
    requires
        generator_a.len() == 32,
        generator_b.len() == 32,
        (blinding_a, amount_a, asset_a, le_nat(generator_a), key_a) != (
            blinding_b,
            amount_b,
            asset_b,
            le_nat(generator_b),
            key_b,
        ) ==> poseidon377_hash_5(
            notecommit_domain_sep(),
            blinding_a,
            amount_a as nat,
            asset_a,
            le_nat(generator_a),
            key_a,
        ) != poseidon377_hash_5(
            notecommit_domain_sep(),
            blinding_b,
            amount_b as nat,
            asset_b,
            le_nat(generator_b),
            key_b,
        ),
    ensures
        commitment_to(blinding_a, amount_a, asset_a, generator_a, key_a) == commitment_to(
            blinding_b,
            amount_b,
            asset_b,
            generator_b,
            key_b,
        ) <==> {
            &&& blinding_a == blinding_b
            &&& amount_a == amount_b
            &&& asset_a == asset_b
            &&& generator_a == generator_b
            &&& key_a == key_b
        },
{
    if le_nat(generator_a) == le_nat(generator_b) {
        lemma_le_nat_injective(generator_a, generator_b);
    }
}

/// The commitment to a note binds the note, but for its diversifier, of which it binds the
/// generator: two notes have the same commitment only if they agree in the rest and in the
/// generator, unless the hash collides on the field elements that the notes stand for.
pub proof fn lemma_note_commitment_binds(a: NoteContents, b: NoteContents)
    requires
        a.wf(),
        b.wf(),
        (
            a.note_blinding,
            a.amount,
            a.asset_id,
            le_nat(generator_of(a.diversifier)),
            le_nat(a.transmission_key),
        ) != (
            b.note_blinding,
            b.amount,
            b.asset_id,
            le_nat(generator_of(b.diversifier)),
            le_nat(b.transmission_key),
        ) ==> poseidon377_hash_5(
            notecommit_domain_sep(),
            a.note_blinding,
            a.amount as nat,
            a.asset_id,
            le_nat(generator_of(a.diversifier)),
            le_nat(a.transmission_key),
        ) != poseidon377_hash_5(
            notecommit_domain_sep(),
            b.note_blinding,
            b.amount as nat,
            b.asset_id,
            le_nat(generator_of(b.diversifier)),
            le_nat(b.transmission_key),
        ),
    ensures
        note_commitment(a) == note_commitment(b) <==> {
            &&& a.note_blinding == b.note_blinding
            &&& a.amount == b.amount
            &&& a.asset_id == b.asset_id
            &&& le_nat(generator_of(a.diversifier)) == le_nat(generator_of(b.diversifier))
            &&& a.transmission_key == b.transmission_key
        },
{
    if le_nat(a.transmission_key) == le_nat(b.transmission_key) {
        lemma_le_nat_injective(a.transmission_key, b.transmission_key);
    }
}

} // verus!
