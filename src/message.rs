//! The tagged message record in which a host stores a frame: a three-byte
//! tag, fixed transport metadata, then the payload, which runs to the end of
//! the record with no length prefix.
use vstd::prelude::*;
use vstd::slice::{slice_subrange, slice_to_vec};
use crate::bytes::{
    be_u16, be_u32, be_u64, lemma_u16_round_trip, lemma_u32_round_trip, lemma_u64_round_trip,
    push_u16, push_u32, push_u64, read_u16, read_u32, read_u64, u16_at, u32_at, u64_at,
};
use crate::error::{FrameError, FramingError};
use crate::identifier::Identifier;

verus! {

/// The tag that opens every record: the ASCII bytes `msu`.
pub const MESSAGE_TAG: [u8; 3] = [0x6d, 0x73, 0x75];

/// Bytes of the fixed fields between the tag and the payload.
pub const MESSAGE_FIXED_LEN: usize = 88;

/// The record's transport metadata and its payload.
#[derive(Clone, Debug, PartialEq, Eq)]
pub struct MessageData {
    pub vaa_version: u8,
    pub consistency_level: u8,
    pub vaa_time: u32,
    pub vaa_signature_account: Identifier,
    pub submission_time: u32,
    pub nonce: u32,
    pub sequence: u64,
    pub emitter_chain: u16,
    pub emitter_address: Identifier,
    pub payload: Vec<u8>,
}

/// A message record as a host stores it: the tag, then the message.
#[derive(Clone, Debug, PartialEq, Eq)]
pub struct PostedMessageUnreliableData {
    pub message: MessageData,
}

/// The mathematical value of a [`MessageData`].
pub struct MessageView {
    pub vaa_version: u8,
    pub consistency_level: u8,
    pub vaa_time: u32,
    pub vaa_signature_account: Seq<u8>,
    pub submission_time: u32,
    pub nonce: u32,
    pub sequence: u64,
    pub emitter_chain: u16,
    pub emitter_address: Seq<u8>,
    pub payload: Seq<u8>,
}

impl View for MessageData {
    type V = MessageView;

    open spec fn view(&self) -> MessageView {
        MessageView {
            vaa_version: self.vaa_version,
            consistency_level: self.consistency_level,
            vaa_time: self.vaa_time,
            vaa_signature_account: self.vaa_signature_account@,
            submission_time: self.submission_time,
            nonce: self.nonce,
            sequence: self.sequence,
            emitter_chain: self.emitter_chain,
            emitter_address: self.emitter_address@,
            payload: self.payload@,
        }
    }
}

impl View for PostedMessageUnreliableData {
    type V = MessageView;

    open spec fn view(&self) -> MessageView {
        self.message@
    }
}

/// The bytes of a record holding `m`.
pub open spec fn spec_message_bytes(m: MessageView) -> Seq<u8> {
    MESSAGE_TAG@ + seq![m.vaa_version, m.consistency_level] + be_u32(m.vaa_time)
        + m.vaa_signature_account + be_u32(m.submission_time) + be_u32(m.nonce) + be_u64(
        m.sequence,
    ) + be_u16(m.emitter_chain) + m.emitter_address + m.payload
}

/// What reading a record from `b` yields: a truncation error where the tag
/// or a fixed field is missing, a tag mismatch, or the message, whose payload
/// is every byte after the fixed fields.
pub open spec fn spec_decode_message(b: Seq<u8>) -> Result<MessageView, FrameError> {
    if b.len() < 3 {
        Err(FrameError::Framing(FramingError::Truncated))
    } else if b.subrange(0, 3) != MESSAGE_TAG@ {
        Err(FrameError::Framing(FramingError::TagMismatch))
    } else if b.len() < 3 + MESSAGE_FIXED_LEN {
        Err(FrameError::Framing(FramingError::Truncated))
    } else {
        Ok(
            MessageView {
                vaa_version: b[3],
                consistency_level: b[4],
                vaa_time: u32_at(b, 5),
                vaa_signature_account: b.subrange(9, 41),
                submission_time: u32_at(b, 41),
                nonce: u32_at(b, 45),
                sequence: u64_at(b, 49),
                emitter_chain: u16_at(b, 57),
                emitter_address: b.subrange(59, 91),
                payload: b.subrange(91, b.len() as int),
            },
        )
    }
}

/// Appends the 32 bytes of `id`.
fn push_identifier(out: &mut Vec<u8>, id: &Identifier)
    ensures
        final(out)@ == old(out)@ + id@,
{
    let bytes = id.to_bytes();
    let mut tail = slice_to_vec(bytes.as_slice());
    out.append(&mut tail);
}

/// Reads the identifier whose bytes stand at `at`.
fn read_identifier(b: &[u8], at: usize) -> (r: Identifier)
    requires
        at + 32 <= b@.len(),
    ensures
        r@ == b@.subrange(at as int, at + 32),
{
    let len = b.len();
    let mut bytes = [0u8; 32];
    let mut i: usize = 0;
    while i < 32
        invariant
            i <= 32,
            len == b@.len(),
            at + 32 <= len,
            forall|j: int| 0 <= j < i ==> bytes@[j] == b@[at + j],
        decreases 32 - i,
    {
        bytes[i] = b[at + i];
        i += 1;
    }
    assert(bytes@ =~= b@.subrange(at as int, at + 32));
    Identifier::new(bytes)
}

impl PostedMessageUnreliableData {
    /// The tag, the fixed fields in order (multi-byte integers big-endian),
    /// then the payload.
    pub fn serialize(&self) -> (r: Vec<u8>)
        ensures
            r@ == spec_message_bytes(self@),
    {
        let m = &self.message;
        let mut buf: Vec<u8> = Vec::new();
        buf.push(MESSAGE_TAG[0]);
        buf.push(MESSAGE_TAG[1]);
        buf.push(MESSAGE_TAG[2]);
        buf.push(m.vaa_version);
        buf.push(m.consistency_level);
        push_u32(&mut buf, m.vaa_time);
        push_identifier(&mut buf, &m.vaa_signature_account);
        push_u32(&mut buf, m.submission_time);
        push_u32(&mut buf, m.nonce);
        push_u64(&mut buf, m.sequence);
        push_u16(&mut buf, m.emitter_chain);
        push_identifier(&mut buf, &m.emitter_address);
        let mut payload = slice_to_vec(m.payload.as_slice());
        buf.append(&mut payload);
        assert(buf@ =~= spec_message_bytes(self@));
        buf
    }

    /// Reads a record that fills `bytes` entirely: all bytes after the fixed
    /// fields are the payload.
    pub fn deserialize(bytes: &[u8]) -> (r: Result<PostedMessageUnreliableData, FrameError>)
        ensures
            match r {
                Ok(d) => spec_decode_message(bytes@) == Ok::<MessageView, FrameError>(d@),
                Err(e) => spec_decode_message(bytes@) == Err::<MessageView, FrameError>(e),
            },
    {
        if bytes.len() < 3 {
            return Err(FrameError::Framing(FramingError::Truncated));
        }
        if bytes[0] != MESSAGE_TAG[0] || bytes[1] != MESSAGE_TAG[1] || bytes[2] != MESSAGE_TAG[2] {
            assert(bytes@.subrange(0, 3) != MESSAGE_TAG@) by {
                if bytes@.subrange(0, 3) == MESSAGE_TAG@ {
                    assert(bytes@.subrange(0, 3)[0] == bytes@[0]);
                    assert(bytes@.subrange(0, 3)[1] == bytes@[1]);
                    assert(bytes@.subrange(0, 3)[2] == bytes@[2]);
                }
            }
            return Err(FrameError::Framing(FramingError::TagMismatch));
        }
        assert(bytes@.subrange(0, 3) =~= MESSAGE_TAG@);
        if bytes.len() - 3 < MESSAGE_FIXED_LEN {
            return Err(FrameError::Framing(FramingError::Truncated));
        }
        let message = MessageData {
            vaa_version: bytes[3],
            consistency_level: bytes[4],
            vaa_time: read_u32(bytes, 5),
            vaa_signature_account: read_identifier(bytes, 9),
            submission_time: read_u32(bytes, 41),
            nonce: read_u32(bytes, 45),
            sequence: read_u64(bytes, 49),
            emitter_chain: read_u16(bytes, 57),
            emitter_address: read_identifier(bytes, 59),
            payload: slice_to_vec(slice_subrange(bytes, 91, bytes.len())),
        };
        Ok(PostedMessageUnreliableData { message })
    }
}

/// Reading back a serialized record gives the same message.
pub proof fn lemma_message_round_trip(m: MessageView)
    requires
        m.vaa_signature_account.len() == 32,
        m.emitter_address.len() == 32,
    ensures
        spec_decode_message(spec_message_bytes(m)) == Ok::<MessageView, FrameError>(m),
{
    let b = spec_message_bytes(m);
    assert(b.subrange(0, 3) =~= MESSAGE_TAG@);
    assert(b.subrange(5, 9) =~= be_u32(m.vaa_time));
    lemma_u32_round_trip(m.vaa_time, b, 5);
    assert(b.subrange(9, 41) =~= m.vaa_signature_account);
    assert(b.subrange(41, 45) =~= be_u32(m.submission_time));
    lemma_u32_round_trip(m.submission_time, b, 41);
    assert(b.subrange(45, 49) =~= be_u32(m.nonce));
    lemma_u32_round_trip(m.nonce, b, 45);
    assert(b.subrange(49, 57) =~= be_u64(m.sequence));
    lemma_u64_round_trip(m.sequence, b, 49);
    assert(b.subrange(57, 59) =~= be_u16(m.emitter_chain));
    lemma_u16_round_trip(m.emitter_chain, b, 57);
    assert(b.subrange(59, 91) =~= m.emitter_address);
    assert(b.subrange(91, b.len() as int) =~= m.payload);
}

} // verus!
