use decaf377::FieldExt;
use penumbra_note::asset;
use penumbra_note::field::Fq;
use penumbra_note::ka;
use penumbra_note::keys::Diversifier;
use penumbra_note::note;
use penumbra_note::note::Note;
use penumbra_note::pb;
use penumbra_note::pb::MessageError;
use penumbra_note::value::Value;

fn message() -> pb::Note {
    pb::Note {
        diversifier: Some(pb::Diversifier { inner: vec![5; 11] }),
        transmission_key: vec![2; 32],
        value: Some(pb::Value {
            amount: 77,
            asset_id: Some(pb::AssetId { inner: vec![3; 32] }),
        }),
        note_blinding: vec![4; 32],
    }
}

fn sample() -> Note {
    let asset_id = asset::Id(Fq::from_bytes([3; 32]).expect("below the modulus"));
    let note_blinding = Fq::from_bytes([4; 32]).expect("below the modulus");
    let value = Value { amount: 77, asset_id };
    Note::from_parts(Diversifier([5; 11]), ka::Public([2; 32]), value, note_blinding)
        .expect("the transmission key is a field element")
}

#[test]
fn a_message_holds_the_parts_of_the_note() {
    assert_eq!(pb::Note::from(sample()), message());
    assert_eq!(Note::try_from(message()), Ok(sample()));
}

#[test]
fn reading_the_message_of_a_note_gives_the_note_back() {
    assert_eq!(Note::try_from(pb::Note::from(sample())), Ok(sample()));
}

#[test]
fn writing_the_note_of_a_message_gives_the_message_back() {
    let note = Note::try_from(message()).expect("a valid message");
    assert_eq!(pb::Note::from(note), message());
}

#[test]
fn a_diversifier_is_needed() {
    let mut msg = message();
    msg.diversifier = None;
    assert_eq!(Note::try_from(msg), Err(MessageError::MissingDiversifier));
    let mut msg = message();
    msg.diversifier = Some(pb::Diversifier { inner: vec![5; 10] });
    assert_eq!(Note::try_from(msg), Err(MessageError::InvalidDiversifier));
}

#[test]
fn a_transmission_key_is_needed() {
    let mut msg = message();
    msg.transmission_key = vec![2; 31];
    assert_eq!(Note::try_from(msg), Err(MessageError::InvalidTransmissionKey));
    let mut msg = message();
    msg.transmission_key = vec![0xff; 32];
    assert_eq!(
        Note::try_from(msg),
        Err(MessageError::InvalidNote(note::Error::InvalidTransmissionKey))
    );
}

#[test]
fn a_value_is_needed() {
    let mut msg = message();
    msg.value = None;
    assert_eq!(Note::try_from(msg), Err(MessageError::MissingValue));
    let mut msg = message();
    msg.value = Some(pb::Value { amount: 77, asset_id: None });
    assert_eq!(Note::try_from(msg), Err(MessageError::MissingAssetId));
    let mut msg = message();
    msg.value = Some(pb::Value {
        amount: 77,
        asset_id: Some(pb::AssetId { inner: vec![0xff; 32] }),
    });
    assert_eq!(Note::try_from(msg), Err(MessageError::InvalidAssetId));
    let mut msg = message();
    msg.value = Some(pb::Value { amount: 77, asset_id: Some(pb::AssetId { inner: vec![3; 33] }) });
    assert_eq!(Note::try_from(msg), Err(MessageError::InvalidAssetId));
}

#[test]
fn a_blinding_factor_is_needed() {
    let mut msg = message();
    msg.note_blinding = vec![0xff; 32];
    assert_eq!(Note::try_from(msg), Err(MessageError::NoteBlindingEncoding));
    let mut msg = message();
    msg.note_blinding = vec![];
    assert_eq!(Note::try_from(msg), Err(MessageError::NoteBlindingLength));
    let mut msg = message();
    msg.note_blinding = vec![0xff; 33];
    assert_eq!(Note::try_from(msg), Err(MessageError::NoteBlindingLength));
}

#[test]
fn the_first_fault_in_a_message_is_reported() {
    let msg = pb::Note {
        diversifier: None,
        transmission_key: vec![],
        value: None,
        note_blinding: vec![],
    };
    assert_eq!(Note::try_from(msg), Err(MessageError::MissingDiversifier));
    let msg = pb::Note {
        diversifier: Some(pb::Diversifier { inner: vec![5; 11] }),
        transmission_key: vec![0xff; 32],
        value: None,
        note_blinding: vec![],
    };
    assert_eq!(Note::try_from(msg), Err(MessageError::MissingValue));
}

#[test]
fn message_errors_have_their_texts() {
    assert_eq!(MessageError::MissingDiversifier.message(), "missing diversifier");
    assert_eq!(MessageError::InvalidDiversifier.message(), "invalid diversifier");
    assert_eq!(MessageError::InvalidTransmissionKey.message(), "invalid transmission key");
    assert_eq!(MessageError::MissingValue.message(), "missing value");
    assert_eq!(MessageError::MissingAssetId.message(), "missing asset id");
    assert_eq!(MessageError::InvalidAssetId.message(), "invalid asset id");
    let no_bytes: [u8; 0] = [];
    let length = <[u8; 32]>::try_from(&no_bytes[..]).expect_err("no bytes");
    assert_eq!(MessageError::NoteBlindingLength.message(), length.to_string());
    let encoding = decaf377::Fq::from_bytes([0xff; 32]).expect_err("not below the modulus");
    assert_eq!(MessageError::NoteBlindingEncoding.message(), encoding.to_string());
    let nested = MessageError::InvalidNote(note::Error::InvalidTransmissionKey);
    assert_eq!(nested.message(), "Invalid transmission key");
}
