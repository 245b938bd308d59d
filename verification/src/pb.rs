//! Notes as messages, whose parts can be missing or malformed.
use vstd::prelude::*;
use vstd::std_specs::convert::{FromSpecImpl, TryFromSpecImpl};

use crate::asset;
use crate::bytes::{array_at, extend, le_bytes, le_nat, lemma_le_bytes_len};
use crate::bytes::{lemma_read_of_write, lemma_write_of_read};
use crate::field::{fq_modulus, lemma_fq_modulus_fits, Fq};
use crate::ka;
use crate::keys;
use crate::note;
use crate::note::NoteContents;
use crate::value;

verus! {

/// A diversifier in a message.
#[derive(Debug, PartialEq, Eq)]
pub struct Diversifier {
    pub inner: Vec<u8>,
}

/// An asset id in a message.
#[derive(Debug, PartialEq, Eq)]
pub struct AssetId {
    pub inner: Vec<u8>,
}

/// A value in a message.
#[derive(Debug, PartialEq, Eq)]
pub struct Value {
    pub amount: u64,
    pub asset_id: Option<AssetId>,
}

/// A note as a message.
#[derive(Debug, PartialEq, Eq)]
pub struct Note {
    pub diversifier: Option<Diversifier>,
    pub transmission_key: Vec<u8>,
    pub value: Option<Value>,
    pub note_blinding: Vec<u8>,
}

/// Why a message is not taken as a note.
#[derive(Clone, Copy, Debug, PartialEq, Eq)]
pub enum MessageError {
    /// There is no diversifier.
    MissingDiversifier,
    /// The diversifier has the wrong length.
    InvalidDiversifier,
    /// The transmission key has the wrong length.
    InvalidTransmissionKey,
    /// There is no value.
    MissingValue,
    /// There is no asset id in the value.
    MissingAssetId,
    /// The asset id is not written as a field element is.
    InvalidAssetId,
    /// The blinding factor has the wrong length.
    NoteBlindingLength,
    /// The blinding factor has the right length, and is not written as a field element is.
    NoteBlindingEncoding,
    /// The parts do not make a note.
    InvalidNote(note::Error),
}

impl MessageError {
    /// The text of the error.
    pub open spec fn spec_message(self) -> Seq<char> {
        match self {
            MessageError::MissingDiversifier => "missing diversifier"@,
            MessageError::InvalidDiversifier => "invalid diversifier"@,
            MessageError::InvalidTransmissionKey => "invalid transmission key"@,
            MessageError::MissingValue => "missing value"@,
            MessageError::MissingAssetId => "missing asset id"@,
            MessageError::InvalidAssetId => "invalid asset id"@,
            MessageError::NoteBlindingLength => "could not convert slice to array"@,
            MessageError::NoteBlindingEncoding => "Invalid Decaf377 encoding"@,
            MessageError::InvalidNote(e) => e.spec_message(),
        }
    }

    /// The text of the error.
    pub fn message(&self) -> (text: &'static str)
        ensures
            text@ == self.spec_message(),
    {
        match self {
            MessageError::MissingDiversifier => "missing diversifier",
            MessageError::InvalidDiversifier => "invalid diversifier",
            MessageError::InvalidTransmissionKey => "invalid transmission key",
            MessageError::MissingValue => "missing value",
            MessageError::MissingAssetId => "missing asset id",
            MessageError::InvalidAssetId => "invalid asset id",
            MessageError::NoteBlindingLength => "could not convert slice to array",
            MessageError::NoteBlindingEncoding => "Invalid Decaf377 encoding",
            MessageError::InvalidNote(e) => e.message(),
        }
    }
}

/// What a value in a message holds.
#[verifier::ext_equal]
pub ghost struct ValueMessage {
    pub amount: u64,
    pub asset_id: Option<Seq<u8>>,
}

/// What a note as a message holds.
#[verifier::ext_equal]
pub ghost struct NoteMessage {
    pub diversifier: Option<Seq<u8>>,
    pub transmission_key: Seq<u8>,
    pub value: Option<ValueMessage>,
    pub note_blinding: Seq<u8>,
}

impl View for Value {
    type V = ValueMessage;

    open spec fn view(&self) -> ValueMessage {
        ValueMessage {
            amount: self.amount,
            asset_id: match self.asset_id {
                Some(id) => Some(id.inner@),
                None => None,
            },
        }
    }
}

impl View for Note {
    type V = NoteMessage;

    open spec fn view(&self) -> NoteMessage {
        NoteMessage {
            diversifier: match self.diversifier {
                Some(d) => Some(d.inner@),
                None => None,
            },
            transmission_key: self.transmission_key@,
            value: match self.value {
                Some(v) => Some(v@),
                None => None,
            },
            note_blinding: self.note_blinding@,
        }
    }
}

/// Whether bytes are those of a field element.
pub open spec fn is_field_element(bytes: Seq<u8>) -> bool {
    bytes.len() == 32 && le_nat(bytes) < fq_modulus()
}

/// The amount and the asset that a value in a message stands for, or why it stands for none.
pub open spec fn read_value(msg: ValueMessage) -> Result<(u64, nat), MessageError> {
    match msg.asset_id {
        None => Err(MessageError::MissingAssetId),
        Some(id) => if is_field_element(id) {
            Ok((msg.amount, le_nat(id)))
        } else {
            Err(MessageError::InvalidAssetId)
        },
    }
}

/// The contents of the note that a message stands for, or why it stands for none.
pub open spec fn read(msg: NoteMessage) -> Result<NoteContents, MessageError> {
    if msg.diversifier is None {
        Err(MessageError::MissingDiversifier)
    } else if msg.diversifier->0.len() != 11 {
        Err(MessageError::InvalidDiversifier)
    } else if msg.transmission_key.len() != 32 {
        Err(MessageError::InvalidTransmissionKey)
    } else if msg.value is None {
        Err(MessageError::MissingValue)
    } else {
        match read_value(msg.value->0) {
            Err(e) => Err(e),
            Ok((amount, asset_id)) => if msg.note_blinding.len() != 32 {
                Err(MessageError::NoteBlindingLength)
            } else if le_nat(msg.note_blinding) >= fq_modulus() {
                Err(MessageError::NoteBlindingEncoding)
            } else if le_nat(msg.transmission_key) >= fq_modulus() {
                Err(MessageError::InvalidNote(note::Error::InvalidTransmissionKey))
            } else {
                Ok(
                    NoteContents {
                        diversifier: msg.diversifier->0,
                        transmission_key: msg.transmission_key,
                        amount,
                        asset_id,
                        note_blinding: le_nat(msg.note_blinding),
                    },
                )
            },
        }
    }
}

/// The message that stands for a note.
pub open spec fn write(note: NoteContents) -> NoteMessage {
    NoteMessage {
        diversifier: Some(note.diversifier),
        transmission_key: note.transmission_key,
        value: Some(
            ValueMessage { amount: note.amount, asset_id: Some(le_bytes(note.asset_id, 32)) },
        ),
        note_blinding: le_bytes(note.note_blinding, 32),
    }
}

/// The field element that a byte string is written as, unless there is none.
fn field_element(bytes: &Vec<u8>) -> (result: Option<Fq>)
    ensures
        result is Some <==> is_field_element(bytes@),
        result matches Some(x) ==> x.wf() && x@ == le_nat(bytes@),
{
    if bytes.len() != 32 {
        return None;
    }
    let array: [u8; 32] = array_at::<32>(bytes.as_slice(), 0);
    proof {
        assert(array@ =~= bytes@);
    }
    match Fq::from_bytes(array) {
        Ok(x) => Some(x),
        Err(_) => None,
    }
}

/// A vector with the given bytes.
fn to_vec(bytes: &[u8]) -> (vec: Vec<u8>)
    ensures
        vec@ == bytes@,
{
    let mut vec: Vec<u8> = Vec::new();
    extend(&mut vec, bytes);
    proof {
        assert(vec@ =~= bytes@);
    }
    vec
}

impl TryFrom<Value> for value::Value {
    type Error = MessageError;

    fn try_from(msg: Value) -> (result: Result<value::Value, MessageError>)
        ensures
            match result {
                Ok(v) => v.asset_id.0.wf() && read_value(msg@) == Ok::<(u64, nat), MessageError>(
                    (v.amount, v.asset_id.0@),
                ),
                Err(e) => read_value(msg@) == Err::<(u64, nat), MessageError>(e),
            },
    {
        let id = match msg.asset_id {
            Some(id) => id,
            None => return Err(MessageError::MissingAssetId),
        };
        match field_element(&id.inner) {
            Some(x) => Ok(value::Value { amount: msg.amount, asset_id: asset::Id(x) }),
            None => Err(MessageError::InvalidAssetId),
        }
    }
}

impl TryFromSpecImpl<Value> for value::Value {
    open spec fn obeys_try_from_spec() -> bool {
        false
    }

    open spec fn try_from_spec(msg: Value) -> Result<value::Value, MessageError> {
        arbitrary()
    }
}

impl TryFrom<Note> for note::Note {
    type Error = MessageError;

    fn try_from(msg: Note) -> (result: Result<note::Note, MessageError>)
        ensures
            match result {
                Ok(note) => note.wf() && read(msg@) == Ok::<NoteContents, MessageError>(note@),
                Err(e) => read(msg@) == Err::<NoteContents, MessageError>(e),
            },
    {
        let diversifier_msg = match msg.diversifier {
            Some(d) => d,
            None => return Err(MessageError::MissingDiversifier),
        };
        let diversifier = match keys::Diversifier::try_from(diversifier_msg.inner.as_slice()) {
            Ok(d) => d,
            Err(_) => return Err(MessageError::InvalidDiversifier),
        };
        let transmission_key = match ka::Public::try_from(msg.transmission_key.as_slice()) {
            Ok(pk) => pk,
            Err(_) => return Err(MessageError::InvalidTransmissionKey),
        };
        let value_msg = match msg.value {
            Some(v) => v,
            None => return Err(MessageError::MissingValue),
        };
        let value = match value::Value::try_from(value_msg) {
            Ok(v) => v,
            Err(e) => return Err(e),
        };
        if msg.note_blinding.len() != 32 {
            return Err(MessageError::NoteBlindingLength);
        }
        let note_blinding = match field_element(&msg.note_blinding) {
            Some(x) => x,
            None => return Err(MessageError::NoteBlindingEncoding),
        };
        match note::Note::from_parts(diversifier, transmission_key, value, note_blinding) {
            Ok(note) => Ok(note),
            Err(e) => Err(MessageError::InvalidNote(e)),
        }
    }
}

impl TryFromSpecImpl<Note> for note::Note {
    open spec fn obeys_try_from_spec() -> bool {
        false
    }

    open spec fn try_from_spec(msg: Note) -> Result<note::Note, MessageError> {
        arbitrary()
    }
}

impl From<note::Note> for Note {
    fn from(note: note::Note) -> (msg: Note)
        ensures
            msg@ == write(note@),
    {
        let diversifier = note.diversifier();
        let transmission_key = note.transmission_key();
        let asset_id = note.asset_id().0.to_bytes();
        let note_blinding = note.note_blinding().to_bytes();
        Note {
            diversifier: Some(Diversifier { inner: to_vec(&diversifier.0) }),
            transmission_key: to_vec(&transmission_key.0),
            value: Some(
                Value {
                    amount: note.amount(),
                    asset_id: Some(AssetId { inner: to_vec(&asset_id) }),
                },
            ),
            note_blinding: to_vec(&note_blinding),
        }
    }
}

impl FromSpecImpl<note::Note> for Note {
    open spec fn obeys_from_spec() -> bool {
        false
    }

    open spec fn from_spec(note: note::Note) -> Note {
        arbitrary()
    }
}

/// Reading the message that stands for a note gives the note back.
pub proof fn lemma_read_of_write_message(note: NoteContents)
    requires
        note.wf(),
    ensures
        read(write(note)) == Ok::<NoteContents, MessageError>(note),
{
    lemma_le_bytes_len(note.asset_id, 32);
    lemma_le_bytes_len(note.note_blinding, 32);
    lemma_fq_modulus_fits();
    lemma_read_of_write(note.asset_id, 32);
    lemma_read_of_write(note.note_blinding, 32);
}

/// A message that is read as a note is the message that stands for the note, so that no note is
/// read from two messages.
pub proof fn lemma_write_of_read_message(msg: NoteMessage)
    requires
        read(msg) is Ok,
    ensures
        read(msg)->Ok_0.wf(),
        write(read(msg)->Ok_0) == msg,
{
    lemma_write_of_read(msg.value->0.asset_id->0);
    lemma_write_of_read(msg.note_blinding);
}

/// A value in a message is read exactly if there is an asset id of 32 bytes that write a field
/// element; its amount and its asset are then those of the message.
pub proof fn lemma_read_value(msg: Value)
    ensures
        read_value(msg@) is Ok <==> {
            &&& msg.asset_id is Some
            &&& msg.asset_id->0.inner@.len() == 32
            &&& le_nat(msg.asset_id->0.inner@) < fq_modulus()
        },
        read_value(msg@) matches Ok((amount, asset_id)) ==> {
            &&& amount == msg.amount
            &&& asset_id == le_nat(msg.asset_id->0.inner@)
        },
        msg.asset_id is None ==> read_value(msg@) == Err::<(u64, nat), MessageError>(
            MessageError::MissingAssetId,
        ),
        msg.asset_id is Some && read_value(msg@) is Err ==> read_value(msg@) == Err::<
            (u64, nat),
            MessageError,
        >(MessageError::InvalidAssetId),
{
}

/// A message is read as a note exactly if no part is missing, every part has its length, and the
/// asset id, the blinding factor and the transmission key write field elements. Each part of the
/// note is then the one in the message.
pub proof fn lemma_read_accepts(msg: Note)
    ensures
        read(msg@) is Ok <==> {
            &&& msg.diversifier is Some
            &&& msg.diversifier->0.inner@.len() == 11
            &&& msg.transmission_key@.len() == 32
            &&& le_nat(msg.transmission_key@) < fq_modulus()
            &&& msg.value is Some
            &&& msg.value->0.asset_id is Some
            &&& msg.value->0.asset_id->0.inner@.len() == 32
            &&& le_nat(msg.value->0.asset_id->0.inner@) < fq_modulus()
            &&& msg.note_blinding@.len() == 32
            &&& le_nat(msg.note_blinding@) < fq_modulus()
        },
        read(msg@) matches Ok(note) ==> {
            &&& note.diversifier == msg.diversifier->0.inner@
            &&& note.transmission_key == msg.transmission_key@
            &&& note.amount == msg.value->0.amount
            &&& note.asset_id == le_nat(msg.value->0.asset_id->0.inner@)
            &&& note.note_blinding == le_nat(msg.note_blinding@)
        },
{
}

/// Of a message that is not read as a note the first fault is given: in the diversifier, the
/// length of the transmission key, the value, the blinding factor, the transmission key.
pub proof fn lemma_read_gives_first_fault(msg: Note)
    ensures
        read(msg@) matches Err(e) ==> {
            let d = msg.diversifier;
            let v = msg.value;
            match e {
                MessageError::MissingDiversifier => d is None,
                MessageError::InvalidDiversifier => d is Some && d->0.inner@.len() != 11,
                MessageError::InvalidTransmissionKey => {
                    &&& d is Some && d->0.inner@.len() == 11
                    &&& msg.transmission_key@.len() != 32
                },
                MessageError::MissingValue => {
                    &&& d is Some && d->0.inner@.len() == 11
                    &&& msg.transmission_key@.len() == 32
                    &&& v is None
                },
                MessageError::MissingAssetId => {
                    &&& d is Some && d->0.inner@.len() == 11
                    &&& msg.transmission_key@.len() == 32
                    &&& v is Some && v->0.asset_id is None
                },
                MessageError::InvalidAssetId => {
                    &&& d is Some && d->0.inner@.len() == 11
                    &&& msg.transmission_key@.len() == 32
                    &&& v is Some && v->0.asset_id is Some
                    &&& v->0.asset_id->0.inner@.len() != 32 || le_nat(v->0.asset_id->0.inner@)
                        >= fq_modulus()
                },
                MessageError::NoteBlindingLength => {
                    &&& d is Some && d->0.inner@.len() == 11
                    &&& msg.transmission_key@.len() == 32
                    &&& v is Some && v->0.asset_id is Some
                    &&& v->0.asset_id->0.inner@.len() == 32
                    &&& le_nat(v->0.asset_id->0.inner@) < fq_modulus()
                    &&& msg.note_blinding@.len() != 32
                },
                MessageError::NoteBlindingEncoding => {
                    &&& d is Some && d->0.inner@.len() == 11
                    &&& msg.transmission_key@.len() == 32
                    &&& v is Some && v->0.asset_id is Some
                    &&& v->0.asset_id->0.inner@.len() == 32
                    &&& le_nat(v->0.asset_id->0.inner@) < fq_modulus()
                    &&& msg.note_blinding@.len() == 32
                    &&& le_nat(msg.note_blinding@) >= fq_modulus()
                },
                MessageError::InvalidNote(inner) => {
                    &&& inner == note::Error::InvalidTransmissionKey
                    &&& d is Some && d->0.inner@.len() == 11
                    &&& msg.transmission_key@.len() == 32
                    &&& le_nat(msg.transmission_key@) >= fq_modulus()
                    &&& v is Some && v->0.asset_id is Some
                    &&& v->0.asset_id->0.inner@.len() == 32
                    &&& le_nat(v->0.asset_id->0.inner@) < fq_modulus()
                    &&& msg.note_blinding@.len() == 32
                    &&& le_nat(msg.note_blinding@) < fq_modulus()
                },
            }
        },
{
}

/// In the message that stands for a note no part is missing, and each part is the note's own, with
/// the field elements written in 32 bytes.
pub proof fn lemma_written_parts(msg: Note, note: NoteContents)
    requires
        note.wf(),
        msg@ == write(note),
    ensures
        msg.diversifier is Some,
        msg.diversifier->0.inner@ == note.diversifier,
        msg.transmission_key@ == note.transmission_key,
        msg.value is Some,
        msg.value->0.amount == note.amount,
        msg.value->0.asset_id is Some,
        msg.value->0.asset_id->0.inner@.len() == 32,
        le_nat(msg.value->0.asset_id->0.inner@) == note.asset_id,
        msg.note_blinding@.len() == 32,
        le_nat(msg.note_blinding@) == note.note_blinding,
{
    lemma_read_of_write_message(note);
    lemma_read_accepts(msg);
}

/// A fault in the note itself is told in the note's words.
pub proof fn lemma_inner_message(e: note::Error)
    ensures
        MessageError::InvalidNote(e).spec_message() == e.spec_message(),
{
}

} // verus!
