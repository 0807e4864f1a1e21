use pyth_attest::attestation::{AccumulatorAttestation, AttestationError};
use pyth_attest::error::{FrameError, FramingError};
use pyth_attest::frame::{decode, encode};

fn root() -> [u8; 32] {
    let mut r = [0u8; 32];
    for (i, b) in r.iter_mut().enumerate() {
        *b = 0xa0 ^ i as u8;
    }
    r
}

fn sample() -> AccumulatorAttestation {
    AccumulatorAttestation { accumulator: root(), ring_buffer_idx: 17, height: 28, timestamp: 294 }
}

#[test]
fn serialize_carries_root_as_payload() {
    let bytes = sample().serialize().unwrap();
    assert_eq!(bytes, encode(&root(), 17, 28, 294));
    let env = decode(&bytes).unwrap();
    assert_eq!(env.payload, root().to_vec());
}

#[test]
fn attestation_round_trip() {
    let bytes = sample().serialize().unwrap();
    assert_eq!(AccumulatorAttestation::deserialize(&bytes).unwrap(), sample());
}

#[test]
fn longer_payload_uses_its_first_32_bytes() {
    let mut payload = root().to_vec();
    payload.extend_from_slice(&[9, 9]);
    let bytes = encode(&payload, 1, 2, 3);
    let a = AccumulatorAttestation::deserialize(&bytes).unwrap();
    assert_eq!(a.accumulator, root());
    assert_eq!((a.ring_buffer_idx, a.height, a.timestamp), (1, 2, 3));
}

#[test]
fn short_payload_is_payload_error() {
    let bytes = encode(&root()[..31], 1, 2, 3);
    assert!(matches!(
        AccumulatorAttestation::deserialize(&bytes),
        Err(AttestationError::PayloadDecode(_))
    ));
}

#[test]
fn short_payload_comes_before_missing_trailer() {
    let bytes = encode(&root()[..31], 1, 2, 3);
    let cut = &bytes[..bytes.len() - 1];
    assert!(matches!(
        AccumulatorAttestation::deserialize(cut),
        Err(AttestationError::PayloadDecode(_))
    ));
}

#[test]
fn frame_errors_pass_through() {
    let mut bytes = sample().serialize().unwrap();
    bytes[1] = 0;
    assert!(matches!(
        AccumulatorAttestation::deserialize(&bytes),
        Err(AttestationError::Frame(FrameError::Framing(FramingError::BadMagic)))
    ));
    let good = sample().serialize().unwrap();
    assert!(matches!(
        AccumulatorAttestation::deserialize(&good[..good.len() - 1]),
        Err(AttestationError::Frame(FrameError::Framing(FramingError::Truncated)))
    ));
}
