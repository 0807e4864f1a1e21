//! The attestation frame: magic, version pair, an extensible header, a
//! length-prefixed opaque payload and the fixed provenance fields.
//!
//! Every multi-byte integer is big-endian. A decoder demands the major version
//! exactly and the minor version as a floor, and always skips the whole header
//! region that `header_size` declares, so that fields added by newer minor
//! versions are passed over unread.
use vstd::prelude::*;
use vstd::slice::{slice_subrange, slice_to_vec};
use crate::bytes::{
    be_i64, be_u16, be_u32, be_u64, i64_at, lemma_i64_round_trip, lemma_u16_round_trip,
    lemma_u32_at_injective, lemma_u32_round_trip, lemma_u64_round_trip, push_u16, push_u32,
    push_u64, read_u16, read_u32, read_u64, u16_at, u32_at, u64_at,
};
use crate::error::{FrameError, FramingError, VersionError};

verus! {

/// The magic that opens every frame: the ASCII bytes `PACC`.
pub const PACC2W_MAGIC: u32 = 0x5041_4343;

/// The major version written, and the only one accepted.
pub const P2W_FORMAT_VER_MAJOR: u16 = 3;

/// The minor version written, and the oldest one accepted.
pub const P2W_FORMAT_VER_MINOR: u16 = 1;

/// The header size written: the header holds the payload id alone.
pub const P2W_FORMAT_HDR_SIZE: u16 = 1;

/// The payload id of an accumulation attestation.
pub const PAYLOAD_ID_ACCUMULATION_ATTESTATION: u8 = 3;

/// The largest payload whose length the frame can carry.
pub const MAX_PAYLOAD_LEN: usize = 65535;

/// A decoded frame: the opaque payload and the provenance fields.
pub struct AttestationEnvelope {
    pub payload: Vec<u8>,
    pub ring_buffer_idx: u64,
    pub height: u64,
    pub timestamp: i64,
}

/// The mathematical value of an [`AttestationEnvelope`].
pub struct EnvelopeView {
    pub payload: Seq<u8>,
    pub ring_buffer_idx: u64,
    pub height: u64,
    pub timestamp: i64,
}

impl View for AttestationEnvelope {
    type V = EnvelopeView;

    open spec fn view(&self) -> EnvelopeView {
        EnvelopeView {
            payload: self.payload@,
            ring_buffer_idx: self.ring_buffer_idx,
            height: self.height,
            timestamp: self.timestamp,
        }
    }
}

/// The bytes of a frame with the given version pair and header tail (the
/// header bytes after the payload id).
pub open spec fn frame_bytes(
    major: u16,
    minor: u16,
    header_tail: Seq<u8>,
    payload: Seq<u8>,
    ring_buffer_idx: u64,
    height: u64,
    timestamp: i64,
) -> Seq<u8> {
    be_u32(PACC2W_MAGIC) + be_u16(major) + be_u16(minor) + be_u16((1 + header_tail.len()) as u16)
        + seq![PAYLOAD_ID_ACCUMULATION_ATTESTATION] + header_tail + be_u16(payload.len() as u16)
        + payload + be_u64(ring_buffer_idx) + be_u64(height) + be_i64(timestamp)
}

/// The bytes that this version of the format writes.
pub open spec fn spec_encode(payload: Seq<u8>, ring_buffer_idx: u64, height: u64, timestamp: i64) -> Seq<u8> {
    frame_bytes(
        P2W_FORMAT_VER_MAJOR,
        P2W_FORMAT_VER_MINOR,
        seq![],
        payload,
        ring_buffer_idx,
        height,
        timestamp,
    )
}

/// Magic, versions and header, read in that order. On success, the offset of
/// the payload length field, just past the declared header region.
pub open spec fn spec_header(b: Seq<u8>) -> Result<int, FrameError> {
    if b.len() < 4 {
        Err(FrameError::Framing(FramingError::Truncated))
    } else if u32_at(b, 0) != PACC2W_MAGIC {
        Err(FrameError::Framing(FramingError::BadMagic))
    } else if b.len() < 6 {
        Err(FrameError::Framing(FramingError::Truncated))
    } else if u16_at(b, 4) != P2W_FORMAT_VER_MAJOR {
        Err(FrameError::Version(VersionError::MajorMismatch { found: u16_at(b, 4) }))
    } else if b.len() < 8 {
        Err(FrameError::Framing(FramingError::Truncated))
    } else if u16_at(b, 6) < P2W_FORMAT_VER_MINOR {
        Err(FrameError::Version(VersionError::MinorTooOld { found: u16_at(b, 6) }))
    } else if b.len() < 10 + u16_at(b, 8) {
        Err(FrameError::Framing(FramingError::Truncated))
    } else if u16_at(b, 8) < 1 {
        Err(FrameError::LengthMismatch)
    } else if b[10] != PAYLOAD_ID_ACCUMULATION_ATTESTATION {
        Err(FrameError::Framing(FramingError::UnexpectedPayloadKind { found: b[10] }))
    } else {
        Ok(10 + u16_at(b, 8))
    }
}

/// The payload region behind the length field at `at`, as a start and an end.
pub open spec fn spec_payload_span(b: Seq<u8>, at: int) -> Result<(int, int), FrameError> {
    if b.len() < at + 2 || b.len() < at + 2 + u16_at(b, at) {
        Err(FrameError::Framing(FramingError::Truncated))
    } else {
        Ok((at + 2, at + 2 + u16_at(b, at)))
    }
}

/// Ring buffer index, height and timestamp at `at`.
pub open spec fn spec_trailer(b: Seq<u8>, at: int) -> Result<(u64, u64, i64), FrameError> {
    if b.len() < at + 24 {
        Err(FrameError::Framing(FramingError::Truncated))
    } else {
        Ok((u64_at(b, at), u64_at(b, at + 8), i64_at(b, at + 16)))
    }
}

/// What decoding `b` yields: the first error met in reading order, or the
/// whole envelope. Bytes after the timestamp are not read.
pub open spec fn spec_decode(b: Seq<u8>) -> Result<EnvelopeView, FrameError> {
    match spec_header(b) {
        Err(e) => Err(e),
        Ok(at) => match spec_payload_span(b, at) {
            Err(e) => Err(e),
            Ok((start, end)) => match spec_trailer(b, end) {
                Err(e) => Err(e),
                Ok((ring_buffer_idx, height, timestamp)) => Ok(
                    EnvelopeView {
                        payload: b.subrange(start, end),
                        ring_buffer_idx,
                        height,
                        timestamp,
                    },
                ),
            },
        },
    }
}

/// Writes a frame of the current format around `payload`.
pub fn encode(payload: &[u8], ring_buffer_idx: u64, height: u64, timestamp: i64) -> (r: Vec<u8>)
    requires
        payload@.len() <= MAX_PAYLOAD_LEN,
    ensures
        r@ == spec_encode(payload@, ring_buffer_idx, height, timestamp),
{
    let mut buf: Vec<u8> = Vec::new();
    push_u32(&mut buf, PACC2W_MAGIC);
    push_u16(&mut buf, P2W_FORMAT_VER_MAJOR);
    push_u16(&mut buf, P2W_FORMAT_VER_MINOR);
    push_u16(&mut buf, P2W_FORMAT_HDR_SIZE);
    buf.push(PAYLOAD_ID_ACCUMULATION_ATTESTATION);
    push_u16(&mut buf, payload.len() as u16);
    let mut body = slice_to_vec(payload);
    buf.append(&mut body);
    push_u64(&mut buf, ring_buffer_idx);
    push_u64(&mut buf, height);
    push_u64(&mut buf, timestamp as u64);
    assert(buf@ =~= spec_encode(payload@, ring_buffer_idx, height, timestamp));
    buf
}

/// Reads magic, versions and header; returns the offset of the payload
/// length field.
pub(crate) fn decode_header(b: &[u8]) -> (r: Result<usize, FrameError>)
    ensures
        match r {
            Ok(at) => spec_header(b@) == Ok::<int, FrameError>(at as int) && at <= b@.len(),
            Err(e) => spec_header(b@) == Err::<int, FrameError>(e),
        },
{
    if b.len() < 4 {
        return Err(FrameError::Framing(FramingError::Truncated));
    }
    if read_u32(b, 0) != PACC2W_MAGIC {
        return Err(FrameError::Framing(FramingError::BadMagic));
    }
    if b.len() < 6 {
        return Err(FrameError::Framing(FramingError::Truncated));
    }
    let major = read_u16(b, 4);
    if major != P2W_FORMAT_VER_MAJOR {
        return Err(FrameError::Version(VersionError::MajorMismatch { found: major }));
    }
    if b.len() < 8 {
        return Err(FrameError::Framing(FramingError::Truncated));
    }
    let minor = read_u16(b, 6);
    if minor < P2W_FORMAT_VER_MINOR {
        return Err(FrameError::Version(VersionError::MinorTooOld { found: minor }));
    }
    if b.len() < 10 {
        return Err(FrameError::Framing(FramingError::Truncated));
    }
    let header_size = read_u16(b, 8) as usize;
    if b.len() - 10 < header_size {
        return Err(FrameError::Framing(FramingError::Truncated));
    }
    if header_size < 1 {
        return Err(FrameError::LengthMismatch);
    }
    let payload_id = b[10];
    if payload_id != PAYLOAD_ID_ACCUMULATION_ATTESTATION {
        return Err(FrameError::Framing(FramingError::UnexpectedPayloadKind { found: payload_id }));
    }
    Ok(10 + header_size)
}

/// Reads the payload length at `at` and makes sure that the payload is all there.
pub(crate) fn decode_payload_span(b: &[u8], at: usize) -> (r: Result<(usize, usize), FrameError>)
    requires
        at <= b@.len(),
    ensures
        match r {
            Ok((start, end)) => spec_payload_span(b@, at as int) == Ok::<(int, int), FrameError>(
                (start as int, end as int),
            ) && start <= end <= b@.len(),
            Err(e) => spec_payload_span(b@, at as int) == Err::<(int, int), FrameError>(e),
        },
{
    if b.len() - at < 2 {
        return Err(FrameError::Framing(FramingError::Truncated));
    }
    let len = read_u16(b, at) as usize;
    if b.len() - (at + 2) < len {
        return Err(FrameError::Framing(FramingError::Truncated));
    }
    Ok((at + 2, at + 2 + len))
}

/// Reads ring buffer index, height and timestamp at `at`.
pub(crate) fn decode_trailer(b: &[u8], at: usize) -> (r: Result<(u64, u64, i64), FrameError>)
    requires
        at <= b@.len(),
    ensures
        r == spec_trailer(b@, at as int),
{
    if b.len() - at < 24 {
        return Err(FrameError::Framing(FramingError::Truncated));
    }
    let ring_buffer_idx = read_u64(b, at);
    let height = read_u64(b, at + 8);
    let timestamp = read_u64(b, at + 16) as i64;
    Ok((ring_buffer_idx, height, timestamp))
}

/// Reads one frame from the front of `b`: the envelope, or the first error
/// in reading order. No partial envelope is ever returned.
pub fn decode(b: &[u8]) -> (r: Result<AttestationEnvelope, FrameError>)
    ensures
        match r {
            Ok(e) => spec_decode(b@) == Ok::<EnvelopeView, FrameError>(e@),
            Err(e) => spec_decode(b@) == Err::<EnvelopeView, FrameError>(e),
        },
{
    let at = match decode_header(b) {
        Ok(at) => at,
        Err(e) => return Err(e),
    };
    let (start, end) = match decode_payload_span(b, at) {
        Ok(span) => span,
        Err(e) => return Err(e),
    };
    let payload = slice_to_vec(slice_subrange(b, start, end));
    let (ring_buffer_idx, height, timestamp) = match decode_trailer(b, end) {
        Ok(fields) => fields,
        Err(e) => return Err(e),
    };
    Ok(AttestationEnvelope { payload, ring_buffer_idx, height, timestamp })
}

/// Where each field of `frame_bytes` stands, and what reads back from it.
pub(crate) proof fn lemma_frame_layout(
    major: u16,
    minor: u16,
    tail: Seq<u8>,
    payload: Seq<u8>,
    ring_buffer_idx: u64,
    height: u64,
    timestamp: i64,
)
    requires
        tail.len() < 65535,
        payload.len() <= MAX_PAYLOAD_LEN,
    ensures
        ({
            let b = frame_bytes(major, minor, tail, payload, ring_buffer_idx, height, timestamp);
            let at: int = 11 + tail.len() as int;
            let end: int = at + 2 + payload.len();
            &&& b.len() == end + 24
            &&& u32_at(b, 0) == PACC2W_MAGIC
            &&& u16_at(b, 4) == major
            &&& u16_at(b, 6) == minor
            &&& u16_at(b, 8) == 1 + tail.len()
            &&& b[10] == PAYLOAD_ID_ACCUMULATION_ATTESTATION
            &&& u16_at(b, at) == payload.len()
            &&& b.subrange(at + 2, end) == payload
            &&& u64_at(b, end) == ring_buffer_idx
            &&& u64_at(b, end + 8) == height
            &&& i64_at(b, end + 16) == timestamp
        }),
{
    let b = frame_bytes(major, minor, tail, payload, ring_buffer_idx, height, timestamp);
    let tl = tail.len() as int;
    let at = 11 + tl;
    let end: int = at + 2 + payload.len();
    assert(b.subrange(0, 4) =~= be_u32(PACC2W_MAGIC));
    lemma_u32_round_trip(PACC2W_MAGIC, b, 0);
    assert(b.subrange(4, 6) =~= be_u16(major));
    lemma_u16_round_trip(major, b, 4);
    assert(b.subrange(6, 8) =~= be_u16(minor));
    lemma_u16_round_trip(minor, b, 6);
    assert(b.subrange(8, 10) =~= be_u16((1 + tl) as u16));
    lemma_u16_round_trip((1 + tl) as u16, b, 8);
    assert(b.subrange(at, at + 2) =~= be_u16(payload.len() as u16));
    lemma_u16_round_trip(payload.len() as u16, b, at);
    assert(b.subrange(at + 2, end) =~= payload);
    assert(b.subrange(end, end + 8) =~= be_u64(ring_buffer_idx));
    lemma_u64_round_trip(ring_buffer_idx, b, end);
    assert(b.subrange(end + 8, end + 16) =~= be_u64(height));
    lemma_u64_round_trip(height, b, end + 8);
    assert(b.subrange(end + 16, end + 24) =~= be_i64(timestamp));
    lemma_i64_round_trip(timestamp, b, end + 16);
}

/// A frame of the expected major version and any minor version from the
/// oldest supported one on decodes to exactly the fields it was written
/// from, whatever extra header bytes it declares: those are skipped unread.
pub proof fn lemma_decode_frame_bytes(
    minor: u16,
    header_tail: Seq<u8>,
    payload: Seq<u8>,
    ring_buffer_idx: u64,
    height: u64,
    timestamp: i64,
)
    requires
        minor >= P2W_FORMAT_VER_MINOR,
        header_tail.len() < 65535,
        payload.len() <= MAX_PAYLOAD_LEN,
    ensures
        spec_decode(
            frame_bytes(
                P2W_FORMAT_VER_MAJOR,
                minor,
                header_tail,
                payload,
                ring_buffer_idx,
                height,
                timestamp,
            ),
        ) == Ok::<EnvelopeView, FrameError>(
            EnvelopeView { payload, ring_buffer_idx, height, timestamp },
        ),
{
    lemma_frame_layout(
        P2W_FORMAT_VER_MAJOR,
        minor,
        header_tail,
        payload,
        ring_buffer_idx,
        height,
        timestamp,
    );
}

/// Decoding what `encode` writes gives back its arguments.
pub proof fn lemma_decode_encode(payload: Seq<u8>, ring_buffer_idx: u64, height: u64, timestamp: i64)
    requires
        payload.len() <= MAX_PAYLOAD_LEN,
    ensures
        spec_decode(spec_encode(payload, ring_buffer_idx, height, timestamp)) == Ok::<
            EnvelopeView,
            FrameError,
        >(EnvelopeView { payload, ring_buffer_idx, height, timestamp }),
{
    lemma_decode_frame_bytes(P2W_FORMAT_VER_MINOR, seq![], payload, ring_buffer_idx, height, timestamp);
}

/// Flipping any one bit of the magic of bytes that decode makes them fail
/// with a bad magic.
pub proof fn lemma_magic_bit_flip(b: Seq<u8>, i: int, bit: u8)
    requires
        spec_decode(b) is Ok,
        0 <= i < 4,
        bit < 8,
    ensures
        spec_decode(b.update(i, b[i] ^ (1u8 << bit))) == Err::<EnvelopeView, FrameError>(
            FrameError::Framing(FramingError::BadMagic),
        ),
{
    let x = b[i];
    let flipped = b.update(i, x ^ (1u8 << bit));
    assert(bit < 8 ==> x ^ (1u8 << bit) != x) by (bit_vector);
    lemma_u32_at_injective(b, flipped, 0, i);
}

/// A frame whose major version is not the expected one fails with a major
/// version mismatch, whatever the rest holds.
pub proof fn lemma_major_mismatch(
    major: u16,
    minor: u16,
    header_tail: Seq<u8>,
    payload: Seq<u8>,
    ring_buffer_idx: u64,
    height: u64,
    timestamp: i64,
)
    requires
        major != P2W_FORMAT_VER_MAJOR,
        header_tail.len() < 65535,
        payload.len() <= MAX_PAYLOAD_LEN,
    ensures
        spec_decode(
            frame_bytes(major, minor, header_tail, payload, ring_buffer_idx, height, timestamp),
        ) == Err::<EnvelopeView, FrameError>(
            FrameError::Version(VersionError::MajorMismatch { found: major }),
        ),
{
    lemma_frame_layout(major, minor, header_tail, payload, ring_buffer_idx, height, timestamp);
}

/// A frame whose minor version is below the oldest supported one fails with
/// a minor version error, whatever the rest holds.
pub proof fn lemma_minor_too_old(
    minor: u16,
    header_tail: Seq<u8>,
    payload: Seq<u8>,
    ring_buffer_idx: u64,
    height: u64,
    timestamp: i64,
)
    requires
        minor < P2W_FORMAT_VER_MINOR,
        header_tail.len() < 65535,
        payload.len() <= MAX_PAYLOAD_LEN,
    ensures
        spec_decode(
            frame_bytes(
                P2W_FORMAT_VER_MAJOR,
                minor,
                header_tail,
                payload,
                ring_buffer_idx,
                height,
                timestamp,
            ),
        ) == Err::<EnvelopeView, FrameError>(
            FrameError::Version(VersionError::MinorTooOld { found: minor }),
        ),
{
    lemma_frame_layout(
        P2W_FORMAT_VER_MAJOR,
        minor,
        header_tail,
        payload,
        ring_buffer_idx,
        height,
        timestamp,
    );
}

/// A strict prefix of bytes laid out as a complete frame fails with a
/// truncation error.
proof fn lemma_prefix_truncated(b: Seq<u8>, at: int, end: int, n: int)
    requires
        b.len() == end + 24,
        u32_at(b, 0) == PACC2W_MAGIC,
        u16_at(b, 4) == P2W_FORMAT_VER_MAJOR,
        u16_at(b, 6) >= P2W_FORMAT_VER_MINOR,
        u16_at(b, 8) >= 1,
        b[10] == PAYLOAD_ID_ACCUMULATION_ATTESTATION,
        at == 10 + u16_at(b, 8),
        end == at + 2 + u16_at(b, at),
        0 <= n < b.len(),
    ensures
        spec_decode(b.subrange(0, n)) == Err::<EnvelopeView, FrameError>(
            FrameError::Framing(FramingError::Truncated),
        ),
{
    let t = b.subrange(0, n);
    if n >= 4 {
        assert(u32_at(t, 0) == u32_at(b, 0));
    }
    if n >= 6 {
        assert(u16_at(t, 4) == u16_at(b, 4));
    }
    if n >= 8 {
        assert(u16_at(t, 6) == u16_at(b, 6));
    }
    if n >= 10 {
        assert(u16_at(t, 8) == u16_at(b, 8));
    }
    if n >= 11 {
        assert(t[10] == b[10]);
    }
    if n >= at + 2 {
        assert(u16_at(t, at) == u16_at(b, at));
    }
}

/// Every strict prefix of a valid frame fails with a truncation error: no
/// boundary lets a shortened frame decode to a partial value.
pub proof fn lemma_truncated_frame(
    minor: u16,
    header_tail: Seq<u8>,
    payload: Seq<u8>,
    ring_buffer_idx: u64,
    height: u64,
    timestamp: i64,
    n: int,
)
    requires
        minor >= P2W_FORMAT_VER_MINOR,
        header_tail.len() < 65535,
        payload.len() <= MAX_PAYLOAD_LEN,
        0 <= n < frame_bytes(
            P2W_FORMAT_VER_MAJOR,
            minor,
            header_tail,
            payload,
            ring_buffer_idx,
            height,
            timestamp,
        ).len(),
    ensures
        spec_decode(
            frame_bytes(
                P2W_FORMAT_VER_MAJOR,
                minor,
                header_tail,
                payload,
                ring_buffer_idx,
                height,
                timestamp,
            ).subrange(0, n),
        ) == Err::<EnvelopeView, FrameError>(FrameError::Framing(FramingError::Truncated)),
{
    lemma_frame_layout(
        P2W_FORMAT_VER_MAJOR,
        minor,
        header_tail,
        payload,
        ring_buffer_idx,
        height,
        timestamp,
    );
    let at: int = 11 + header_tail.len() as int;
    lemma_prefix_truncated(
        frame_bytes(
            P2W_FORMAT_VER_MAJOR,
            minor,
            header_tail,
            payload,
            ring_buffer_idx,
            height,
            timestamp,
        ),
        at,
        at + 2 + payload.len(),
        n,
    );
}

} // verus!
