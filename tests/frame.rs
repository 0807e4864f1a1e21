use pyth_attest::error::{FrameError, FramingError, VersionError};
use pyth_attest::frame::{decode, encode, P2W_FORMAT_VER_MAJOR, P2W_FORMAT_VER_MINOR};

fn sample_payload() -> Vec<u8> {
    vec![0xde, 0xad, 0xbe, 0xef, 0x01]
}

#[test]
fn encode_writes_exact_layout() {
    let bytes = encode(&[0xab, 0xcd], 0x0102030405060708, 9, -2);
    let expected: Vec<u8> = vec![
        b'P', b'A', b'C', b'C', // magic
        0x00, 0x03, // major
        0x00, 0x01, // minor
        0x00, 0x01, // header size
        0x03, // payload id
        0x00, 0x02, // payload length
        0xab, 0xcd, // payload
        0x01, 0x02, 0x03, 0x04, 0x05, 0x06, 0x07, 0x08, // ring buffer index
        0, 0, 0, 0, 0, 0, 0, 9, // height
        0xff, 0xff, 0xff, 0xff, 0xff, 0xff, 0xff, 0xfe, // timestamp
    ];
    assert_eq!(bytes, expected);
}

#[test]
fn empty_payload_round_trip() {
    let bytes = encode(&[], 17, 28, 294);
    let env = decode(&bytes).unwrap();
    assert!(env.payload.is_empty());
    assert_eq!(env.ring_buffer_idx, 17);
    assert_eq!(env.height, 28);
    assert_eq!(env.timestamp, 294);
}

#[test]
fn payload_round_trip_with_extremes() {
    let payload = sample_payload();
    let bytes = encode(&payload, u64::MAX, 0, i64::MIN);
    let env = decode(&bytes).unwrap();
    assert_eq!(env.payload, payload);
    assert_eq!(env.ring_buffer_idx, u64::MAX);
    assert_eq!(env.height, 0);
    assert_eq!(env.timestamp, i64::MIN);
}

#[test]
fn largest_payload_round_trip() {
    let payload = vec![0x5a; 65535];
    let bytes = encode(&payload, 1, 2, 3);
    assert_eq!(&bytes[11..13], &[0xff, 0xff]);
    let env = decode(&bytes).unwrap();
    assert_eq!(env.payload, payload);
    assert_eq!(env.timestamp, 3);
}

#[test]
fn trailing_bytes_are_not_read() {
    let mut bytes = encode(&sample_payload(), 4, 5, 6);
    bytes.extend_from_slice(&[1, 2, 3]);
    let env = decode(&bytes).unwrap();
    assert_eq!(env.payload, sample_payload());
    assert_eq!(env.timestamp, 6);
}

#[test]
fn corrupt_first_byte_is_bad_magic() {
    let mut bytes = encode(&sample_payload(), 17, 28, 294);
    bytes[0] ^= 0xff;
    assert!(matches!(decode(&bytes), Err(FrameError::Framing(FramingError::BadMagic))));
}

#[test]
fn any_bit_flip_in_magic_is_bad_magic() {
    let bytes = encode(&sample_payload(), 17, 28, 294);
    for i in 0..4 {
        for bit in 0..8 {
            let mut flipped = bytes.clone();
            flipped[i] ^= 1u8 << bit;
            assert!(matches!(decode(&flipped), Err(FrameError::Framing(FramingError::BadMagic))));
        }
    }
}

#[test]
fn next_major_is_version_error() {
    let mut bytes = encode(&sample_payload(), 17, 28, 294);
    let major = P2W_FORMAT_VER_MAJOR + 1;
    bytes[4..6].copy_from_slice(&major.to_be_bytes());
    assert_eq!(
        decode(&bytes).err(),
        Some(FrameError::Version(VersionError::MajorMismatch { found: major }))
    );
}

#[test]
fn previous_major_is_version_error() {
    let mut bytes = encode(&sample_payload(), 17, 28, 294);
    let major = P2W_FORMAT_VER_MAJOR - 1;
    bytes[4..6].copy_from_slice(&major.to_be_bytes());
    assert_eq!(
        decode(&bytes).err(),
        Some(FrameError::Version(VersionError::MajorMismatch { found: major }))
    );
}

#[test]
fn minor_below_floor_is_version_error() {
    let mut bytes = encode(&sample_payload(), 17, 28, 294);
    let minor = P2W_FORMAT_VER_MINOR - 1;
    bytes[6..8].copy_from_slice(&minor.to_be_bytes());
    assert_eq!(
        decode(&bytes).err(),
        Some(FrameError::Version(VersionError::MinorTooOld { found: minor }))
    );
}

#[test]
fn newer_minor_with_extra_header_bytes_decodes() {
    let bytes = encode(&sample_payload(), 17, 28, 294);
    let mut newer = bytes[..11].to_vec();
    newer[6..8].copy_from_slice(&(P2W_FORMAT_VER_MINOR + 1).to_be_bytes());
    newer[8..10].copy_from_slice(&3u16.to_be_bytes());
    newer.extend_from_slice(&[0x77, 0x88]);
    newer.extend_from_slice(&bytes[11..]);
    let env = decode(&newer).unwrap();
    assert_eq!(env.payload, sample_payload());
    assert_eq!(env.ring_buffer_idx, 17);
    assert_eq!(env.height, 28);
    assert_eq!(env.timestamp, 294);
}

#[test]
fn truncated_payload_is_truncation_error() {
    let bytes = encode(&sample_payload(), 17, 28, 294);
    let payload_end = 13 + sample_payload().len();
    let cut = &bytes[..payload_end - 1];
    assert_eq!(decode(cut).err(), Some(FrameError::Framing(FramingError::Truncated)));
}

#[test]
fn every_strict_prefix_is_truncation_error() {
    let bytes = encode(&sample_payload(), 17, 28, 294);
    for n in 0..bytes.len() {
        assert_eq!(
            decode(&bytes[..n]).err(),
            Some(FrameError::Framing(FramingError::Truncated)),
            "prefix of {} bytes",
            n
        );
    }
}

#[test]
fn zero_header_size_is_length_mismatch() {
    let bytes = encode(&[], 1, 2, 3);
    let mut zero = bytes[..10].to_vec();
    zero[8..10].copy_from_slice(&0u16.to_be_bytes());
    zero.extend_from_slice(&bytes[11..]);
    assert_eq!(decode(&zero).err(), Some(FrameError::LengthMismatch));
}

#[test]
fn other_payload_id_is_rejected() {
    let mut bytes = encode(&[], 1, 2, 3);
    bytes[10] = 2;
    assert_eq!(
        decode(&bytes).err(),
        Some(FrameError::Framing(FramingError::UnexpectedPayloadKind { found: 2 }))
    );
}
