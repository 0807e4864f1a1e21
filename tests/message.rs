use pyth_attest::attestation::AccumulatorAttestation;
use pyth_attest::error::{FrameError, FramingError};
use pyth_attest::identifier::Identifier;
use pyth_attest::message::{MessageData, PostedMessageUnreliableData};

fn sample(payload: Vec<u8>) -> PostedMessageUnreliableData {
    PostedMessageUnreliableData {
        message: MessageData {
            vaa_version: 1,
            consistency_level: 1,
            vaa_time: 1,
            vaa_signature_account: Identifier::new([0x11; 32]),
            submission_time: 1,
            nonce: 0,
            sequence: 500,
            emitter_chain: 26,
            emitter_address: Identifier::new([0x22; 32]),
            payload,
        },
    }
}

#[test]
fn serialize_writes_exact_layout() {
    let bytes = sample(vec![0xee]).serialize();
    let mut expected: Vec<u8> = b"msu".to_vec();
    expected.extend_from_slice(&[1, 1, 0, 0, 0, 1]);
    expected.extend_from_slice(&[0x11; 32]);
    expected.extend_from_slice(&[0, 0, 0, 1, 0, 0, 0, 0]);
    expected.extend_from_slice(&[0, 0, 0, 0, 0, 0, 0x01, 0xf4]);
    expected.extend_from_slice(&[0, 26]);
    expected.extend_from_slice(&[0x22; 32]);
    expected.push(0xee);
    assert_eq!(bytes, expected);
}

#[test]
fn record_carrying_attestation_round_trip() {
    let attestation = AccumulatorAttestation {
        accumulator: [0x42; 32],
        ring_buffer_idx: 17,
        height: 28,
        timestamp: 294,
    };
    let record = sample(attestation.serialize().unwrap());
    let bytes = record.serialize();
    let back = PostedMessageUnreliableData::deserialize(&bytes).unwrap();
    assert_eq!(back, record);
    assert_eq!(back.message.emitter_chain, 26);
    assert_eq!(back.message.emitter_address, Identifier::new([0x22; 32]));
    let inner = AccumulatorAttestation::deserialize(&back.message.payload).unwrap();
    assert_eq!(inner, attestation);
}

#[test]
fn empty_payload_record_round_trip() {
    let record = sample(vec![]);
    let bytes = record.serialize();
    assert_eq!(bytes.len(), 91);
    assert_eq!(PostedMessageUnreliableData::deserialize(&bytes).unwrap(), record);
}

#[test]
fn wrong_tag_is_tag_mismatch() {
    let mut bytes = sample(vec![1, 2]).serialize();
    bytes[2] = b'x';
    assert_eq!(
        PostedMessageUnreliableData::deserialize(&bytes).err(),
        Some(FrameError::Framing(FramingError::TagMismatch))
    );
}

#[test]
fn short_record_is_truncated() {
    assert_eq!(
        PostedMessageUnreliableData::deserialize(b"ms").err(),
        Some(FrameError::Framing(FramingError::Truncated))
    );
    let bytes = sample(vec![]).serialize();
    assert_eq!(
        PostedMessageUnreliableData::deserialize(&bytes[..90]).err(),
        Some(FrameError::Framing(FramingError::Truncated))
    );
}
