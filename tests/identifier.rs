use pyth_attest::identifier::{HexDecodeError, Identifier};

fn counting_bytes() -> [u8; 32] {
    let mut bytes = [0u8; 32];
    for (i, b) in bytes.iter_mut().enumerate() {
        *b = (i as u8) * 8 + 1;
    }
    bytes
}

const COUNTING_HEX: &str = "0109111921293139414951596169717981899199a1a9b1b9c1c9d1d9e1e9f1f9";

#[test]
fn new_and_to_bytes_keep_the_bytes() {
    let id = Identifier::new(counting_bytes());
    assert_eq!(id.to_bytes(), counting_bytes());
    assert_eq!(id.as_ref(), &counting_bytes()[..]);
}

#[test]
fn to_hex_is_lowercase_and_64_digits() {
    let id = Identifier::new(counting_bytes());
    let hex = id.to_hex();
    assert_eq!(hex, COUNTING_HEX);
    assert_eq!(hex.len(), 64);
}

#[test]
fn to_string_has_prefix() {
    let id = Identifier::new([0xff; 32]);
    assert_eq!(id.to_string(), format!("0x{}", "ff".repeat(32)));
}

#[test]
fn hex_round_trip() {
    for bytes in [[0u8; 32], [0xffu8; 32], counting_bytes()] {
        let id = Identifier::new(bytes);
        assert_eq!(Identifier::from_hex(&id.to_hex()), Ok(id));
    }
}

#[test]
fn from_hex_accepts_uppercase() {
    let upper = COUNTING_HEX.to_uppercase();
    assert_eq!(Identifier::from_hex(&upper), Ok(Identifier::new(counting_bytes())));
}

#[test]
fn from_hex_rejects_odd_length() {
    assert_eq!(Identifier::from_hex(&COUNTING_HEX[..63]), Err(HexDecodeError::OddLength));
}

#[test]
fn from_hex_rejects_wrong_length() {
    assert_eq!(Identifier::from_hex(&COUNTING_HEX[..62]), Err(HexDecodeError::InvalidStringLength));
    assert_eq!(Identifier::from_hex(""), Err(HexDecodeError::InvalidStringLength));
    let long = format!("{}00", COUNTING_HEX);
    assert_eq!(Identifier::from_hex(&long), Err(HexDecodeError::InvalidStringLength));
}

#[test]
fn from_hex_rejects_non_hex_character() {
    let mut text = COUNTING_HEX.to_string();
    text.replace_range(10..11, "g");
    text.replace_range(20..21, "z");
    assert_eq!(
        Identifier::from_hex(&text),
        Err(HexDecodeError::InvalidHexCharacter { c: 'g', index: 10 })
    );
}

#[test]
fn ordering_is_bytewise() {
    let mut low = [0xffu8; 32];
    low[0] = 0x01;
    let mut high = [0x00u8; 32];
    high[0] = 0x02;
    assert!(Identifier::new(low) < Identifier::new(high));
    assert_ne!(Identifier::new(low), Identifier::new(high));
    assert_eq!(Identifier::new(low), Identifier::new(low));
}

#[test]
fn default_is_zero() {
    assert_eq!(Identifier::default().to_bytes(), [0u8; 32]);
}
