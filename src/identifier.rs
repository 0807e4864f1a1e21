//! A 32-byte opaque identifier (a key or an address) and its hex text form.
use vstd::prelude::*;
use vstd::string::{StringExecFns, StringSliceAdditionalSpecFns};
use vstd::utf8::{encode_utf8, is_ascii_chars, is_ascii_chars_encode_utf8};

verus! {

/// Why a hex string is not an identifier.
#[derive(Clone, Copy, Debug, PartialEq, Eq, Structural)]
pub enum HexDecodeError {
    /// The byte at `index` is not a hex digit; `c` is that byte as a `char`.
    InvalidHexCharacter { c: char, index: usize },
    /// The string has an odd number of bytes.
    OddLength,
    /// The string has an even number of bytes, but not two per identifier byte.
    InvalidStringLength,
}

/// The lowercase hex digit of `v`, for `v < 16`.
pub open spec fn hex_digit(v: int) -> char {
    if v < 10 {
        (v + 48) as char
    } else {
        (v + 87) as char
    }
}

/// Two lowercase hex digits for each byte of `b`, high nibble first.
pub open spec fn hex_of(b: Seq<u8>) -> Seq<char> {
    Seq::new(
        2 * b.len(),
        |i: int|
            if i % 2 == 0 {
                hex_digit(b[i / 2] as int / 16)
            } else {
                hex_digit(b[i / 2] as int % 16)
            },
    )
}

/// `c` is an ASCII hex digit, in either case.
pub open spec fn is_hex_byte(c: u8) -> bool {
    (48 <= c <= 57) || (65 <= c <= 70) || (97 <= c <= 102)
}

/// The value of the hex digit `c`.
pub open spec fn hex_value(c: u8) -> int {
    if c <= 57 {
        c - 48
    } else if c <= 70 {
        c - 55
    } else {
        c - 87
    }
}

/// The bytes that the digit pairs of `s` spell, high nibble first.
pub open spec fn hex_pairs(s: Seq<u8>) -> Seq<u8> {
    Seq::new(s.len() / 2, |i: int| (hex_value(s[2 * i]) * 16 + hex_value(s[2 * i + 1])) as u8)
}

/// What reading the text bytes `s` as an identifier yields: a length error
/// first, then the first byte that is not a hex digit, else the 32 bytes.
pub open spec fn spec_from_hex(s: Seq<u8>) -> Result<Seq<u8>, HexDecodeError> {
    if s.len() % 2 != 0 {
        Err(HexDecodeError::OddLength)
    } else if s.len() != 64 {
        Err(HexDecodeError::InvalidStringLength)
    } else if exists|i: int| 0 <= i < s.len() && !is_hex_byte(#[trigger] s[i]) {
        let i = choose|i: int|
            0 <= i < s.len() && !is_hex_byte(#[trigger] s[i]) && forall|j: int|
                0 <= j < i ==> is_hex_byte(#[trigger] s[j]);
        Err(HexDecodeError::InvalidHexCharacter { c: s[i] as char, index: i as usize })
    } else {
        Ok(hex_pairs(s))
    }
}

/// Relies on hex::encode: two lowercase digits for each byte, high nibble
/// first.
#[verifier::external_body]
fn encode_hex(b: &[u8; 32]) -> (r: String)
    ensures
        r@ == hex_of(b@),
{
    hex::encode(b)
}

/// Relies on hex::decode_to_slice into 32 bytes: it rejects an odd length,
/// then a length other than 64, then the first byte that is not a hex digit
/// of either case (reported as that byte cast to `char`, with its index);
/// otherwise each digit pair gives one byte, high nibble first.
#[verifier::external_body]
fn decode_hex_32(s: &[u8]) -> (r: Result<[u8; 32], HexDecodeError>)
    ensures
        match r {
            Ok(a) => spec_from_hex(s@) == Ok::<Seq<u8>, HexDecodeError>(a@),
            Err(e) => spec_from_hex(s@) == Err::<Seq<u8>, HexDecodeError>(e),
        },
{
    let mut out = [0u8; 32];
    match hex::decode_to_slice(s, &mut out) {
        Ok(()) => Ok(out),
        Err(hex::FromHexError::InvalidHexCharacter { c, index }) => Err(
            HexDecodeError::InvalidHexCharacter { c, index },
        ),
        Err(hex::FromHexError::OddLength) => Err(HexDecodeError::OddLength),
        Err(hex::FromHexError::InvalidStringLength) => Err(HexDecodeError::InvalidStringLength),
    }
}

/// The hex digits of `v < 16` are ASCII hex digits that read back as `v`.
proof fn lemma_hex_digit(v: int)
    requires
        0 <= v < 16,
    ensures
        ('\0' <= hex_digit(v) <= '\u{7f}'),
        is_hex_byte(hex_digit(v) as u8),
        hex_value(hex_digit(v) as u8) == v,
{
}

/// Reading back the hex text of any 32 bytes gives those bytes.
pub proof fn lemma_hex_round_trip(b: Seq<u8>)
    requires
        b.len() == 32,
    ensures
        spec_from_hex(encode_utf8(hex_of(b))) == Ok::<Seq<u8>, HexDecodeError>(b),
{
    let h = hex_of(b);
    assert forall|i: int| 0 <= i < h.len() implies ('\0' <= #[trigger] h[i] <= '\u{7f}')
        && is_hex_byte(h[i] as u8) && hex_value(h[i] as u8) == (if i % 2 == 0 {
        b[i / 2] as int / 16
    } else {
        b[i / 2] as int % 16
    }) by {
        if i % 2 == 0 {
            lemma_hex_digit(b[i / 2] as int / 16);
        } else {
            lemma_hex_digit(b[i / 2] as int % 16);
        }
    }
    assert(is_ascii_chars(h));
    is_ascii_chars_encode_utf8(h);
    let e = encode_utf8(h);
    assert(e.len() == 64);
    assert forall|i: int| 0 <= i < 64 implies is_hex_byte(#[trigger] e[i]) by {
        assert(h[i] as u8 == e[i]);
    }
    assert forall|k: int| 0 <= k < 32 implies #[trigger] hex_pairs(e)[k] == b[k] by {
        assert(h[2 * k] as u8 == e[2 * k]);
        assert(h[2 * k + 1] as u8 == e[2 * k + 1]);
        assert((2 * k) / 2 == k && (2 * k) % 2 == 0);
        assert((2 * k + 1) / 2 == k && (2 * k + 1) % 2 == 1);
        let x = b[k] as int;
        assert(x / 16 * 16 + x % 16 == x);
    }
    assert(hex_pairs(e) =~= b);
}

/// Text of any length other than 64 bytes, or holding a byte that is not a
/// hex digit, is not an identifier.
pub proof fn lemma_from_hex_rejects(s: Seq<u8>)
    requires
        s.len() != 64 || exists|i: int| 0 <= i < s.len() && !is_hex_byte(#[trigger] s[i]),
    ensures
        spec_from_hex(s) is Err,
{
}

/// 32 raw bytes. Equality, order and hash are those of the bytes, in order.
#[derive(Clone, Copy, Debug, Eq, PartialOrd, Ord, Hash)]
pub struct Identifier([u8; 32]);

impl View for Identifier {
    type V = Seq<u8>;

    closed spec fn view(&self) -> Seq<u8> {
        self.0@
    }
}

/// An identifier always holds 32 bytes.
pub proof fn lemma_identifier_len(id: Identifier)
    ensures
        id@.len() == 32,
{
}

impl Identifier {
    pub fn new(bytes: [u8; 32]) -> (r: Identifier)
        ensures
            r@ == bytes@,
    {
        Identifier(bytes)
    }

    pub fn to_bytes(&self) -> (r: [u8; 32])
        ensures
            r@ == self@,
    {
        self.0
    }

    /// The 64 lowercase hex digits of the bytes, without prefix.
    pub fn to_hex(&self) -> (r: String)
        ensures
            r@ == hex_of(self@),
    {
        encode_hex(&self.0)
    }

    /// The display form: `0x` followed by [`Identifier::to_hex`].
    pub fn to_string(&self) -> (r: String)
        ensures
            r@ == "0x"@ + hex_of(self@),
    {
        let hex = self.to_hex();
        String::from_str("0x").concat(hex.as_str())
    }

    /// Reads 64 hex digits of either case.
    pub fn from_hex(s: &str) -> (r: Result<Identifier, HexDecodeError>)
        ensures
            match r {
                Ok(id) => spec_from_hex(s.spec_bytes()) == Ok::<Seq<u8>, HexDecodeError>(id@),
                Err(e) => spec_from_hex(s.spec_bytes()) == Err::<Seq<u8>, HexDecodeError>(e),
            },
    {
        match decode_hex_32(s.as_bytes()) {
            Ok(bytes) => Ok(Identifier::new(bytes)),
            Err(e) => Err(e),
        }
    }
}

impl PartialEq for Identifier {
    fn eq(&self, other: &Identifier) -> (r: bool)
        ensures
            r == (self@ == other@),
    {
        let mut i: usize = 0;
        while i < 32
            invariant
                i <= 32,
                forall|j: int| 0 <= j < i ==> self@[j] == other@[j],
            decreases 32 - i,
        {
            if self.0[i] != other.0[i] {
                return false;
            }
            i += 1;
        }
        assert(self@ =~= other@);
        true
    }
}

impl vstd::std_specs::cmp::PartialEqSpecImpl for Identifier {
    open spec fn obeys_eq_spec() -> bool {
        true
    }

    open spec fn eq_spec(&self, other: &Identifier) -> bool {
        self@ == other@
    }
}

impl Default for Identifier {
    /// The identifier of 32 zero bytes.
    fn default() -> (r: Identifier)
        ensures
            r@ == Seq::new(32, |i: int| 0u8),
    {
        let r = Identifier([0u8; 32]);
        assert(r@ =~= Seq::new(32, |i: int| 0u8));
        r
    }
}

impl AsRef<[u8]> for Identifier {
    fn as_ref(&self) -> (r: &[u8])
        ensures
            r@ == self@,
    {
        self.0.as_slice()
    }
}

} // verus!
