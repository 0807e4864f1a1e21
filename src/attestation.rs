//! An accumulator attestation: a 32-byte accumulator root, carried as the
//! frame's payload in bincode form, and its provenance fields.
use vstd::prelude::*;
use vstd::slice::slice_subrange;
use crate::error::FrameError;
use crate::frame::{
    decode_header, decode_payload_span, decode_trailer, encode, lemma_frame_layout,
    spec_encode, spec_header, spec_payload_span, spec_trailer, MAX_PAYLOAD_LEN,
    P2W_FORMAT_VER_MAJOR, P2W_FORMAT_VER_MINOR,
};

verus! {

#[verifier::external_type_specification]
#[verifier::external_body]
pub struct ExBincodeErrorKind(bincode::ErrorKind);

/// A 32-byte digest, such as an accumulator root.
pub type Hash = [u8; 32];

/// Why an attestation could not be read.
#[derive(Debug)]
pub enum AttestationError {
    /// The frame around the payload is malformed.
    Frame(FrameError),
    /// The payload does not hold an accumulator; the cause is bincode's.
    PayloadDecode(Box<bincode::ErrorKind>),
}

/// An accumulator root with the ring buffer slot, height and time that
/// produced it.
#[derive(Clone, Debug, Eq, PartialEq)]
pub struct AccumulatorAttestation {
    pub accumulator: Hash,
    pub ring_buffer_idx: u64,
    pub height: u64,
    pub timestamp: i64,
}

/// The mathematical value of an [`AccumulatorAttestation`].
pub struct AttestationView {
    pub accumulator: Seq<u8>,
    pub ring_buffer_idx: u64,
    pub height: u64,
    pub timestamp: i64,
}

impl View for AccumulatorAttestation {
    type V = AttestationView;

    open spec fn view(&self) -> AttestationView {
        AttestationView {
            accumulator: self.accumulator@,
            ring_buffer_idx: self.ring_buffer_idx,
            height: self.height,
            timestamp: self.timestamp,
        }
    }
}

/// Relies on bincode::serialize of a `[u8; 32]`: serde writes an array as a
/// tuple of its elements, bincode writes a tuple with no length prefix and a
/// `u8` as one byte, and with the default options (no size limit) writing
/// into a `Vec` does not fail.
#[verifier::external_body]
fn bincode_encode_hash(h: &Hash) -> (r: Result<Vec<u8>, Box<bincode::ErrorKind>>)
    ensures
        r is Ok,
        r->Ok_0@ == h@,
{
    bincode::serialize(h)
}

/// Relies on bincode::deserialize into a `[u8; 32]`: it reads 32 single
/// bytes and fails only when fewer are there; bytes after them are allowed
/// by the default options and left unread.
#[verifier::external_body]
fn bincode_decode_hash(b: &[u8]) -> (r: Result<Hash, Box<bincode::ErrorKind>>)
    ensures
        r is Ok <==> b@.len() >= 32,
        r matches Ok(h) ==> h@ == b@.subrange(0, 32),
{
    bincode::deserialize(b)
}

/// What reading an attestation from `b` yields: `Err(Some(e))` for a frame
/// error, `Err(None)` where the payload is too short to hold an accumulator.
/// Errors come in reading order: header, payload, then trailing fields.
pub open spec fn spec_deserialize(b: Seq<u8>) -> Result<AttestationView, Option<FrameError>> {
    match spec_header(b) {
        Err(e) => Err(Some(e)),
        Ok(at) => match spec_payload_span(b, at) {
            Err(e) => Err(Some(e)),
            Ok((start, end)) => if end - start < 32 {
                Err(None)
            } else {
                match spec_trailer(b, end) {
                    Err(e) => Err(Some(e)),
                    Ok((ring_buffer_idx, height, timestamp)) => Ok(
                        AttestationView {
                            accumulator: b.subrange(start, start + 32),
                            ring_buffer_idx,
                            height,
                            timestamp,
                        },
                    ),
                }
            },
        },
    }
}

impl AccumulatorAttestation {
    /// The frame whose payload is the accumulator in bincode form.
    pub fn serialize(&self) -> (r: Result<Vec<u8>, AttestationError>)
        ensures
            r matches Ok(v) && v@ == spec_encode(
                self.accumulator@,
                self.ring_buffer_idx,
                self.height,
                self.timestamp,
            ),
    {
        let payload = match bincode_encode_hash(&self.accumulator) {
            Ok(v) => v,
            Err(e) => return Err(AttestationError::PayloadDecode(e)),
        };
        Ok(encode(payload.as_slice(), self.ring_buffer_idx, self.height, self.timestamp))
    }

    /// Reads an attestation from the front of `bytes`, failing on the first
    /// error met in reading order.
    pub fn deserialize(bytes: &[u8]) -> (r: Result<AccumulatorAttestation, AttestationError>)
        ensures
            match r {
                Ok(a) => spec_deserialize(bytes@) == Ok::<AttestationView, Option<FrameError>>(a@),
                Err(AttestationError::Frame(e)) => spec_deserialize(bytes@) == Err::<
                    AttestationView,
                    Option<FrameError>,
                >(Some(e)),
                Err(AttestationError::PayloadDecode(_)) => spec_deserialize(bytes@) == Err::<
                    AttestationView,
                    Option<FrameError>,
                >(None),
            },
    {
        let at = match decode_header(bytes) {
            Ok(at) => at,
            Err(e) => return Err(AttestationError::Frame(e)),
        };
        let (start, end) = match decode_payload_span(bytes, at) {
            Ok(span) => span,
            Err(e) => return Err(AttestationError::Frame(e)),
        };
        let payload = slice_subrange(bytes, start, end);
        let accumulator = match bincode_decode_hash(payload) {
            Ok(h) => h,
            Err(e) => return Err(AttestationError::PayloadDecode(e)),
        };
        let (ring_buffer_idx, height, timestamp) = match decode_trailer(bytes, end) {
            Ok(fields) => fields,
            Err(e) => return Err(AttestationError::Frame(e)),
        };
        proof {
            assert(accumulator@ =~= bytes@.subrange(start as int, start + 32));
        }
        Ok(AccumulatorAttestation { accumulator, ring_buffer_idx, height, timestamp })
    }
}

/// Reading back a serialized attestation gives the same attestation.
pub proof fn lemma_attestation_round_trip(a: AttestationView)
    requires
        a.accumulator.len() == 32,
    ensures
        spec_deserialize(spec_encode(a.accumulator, a.ring_buffer_idx, a.height, a.timestamp))
            == Ok::<AttestationView, Option<FrameError>>(a),
{
    lemma_frame_layout(
        P2W_FORMAT_VER_MAJOR,
        P2W_FORMAT_VER_MINOR,
        seq![],
        a.accumulator,
        a.ring_buffer_idx,
        a.height,
        a.timestamp,
    );
    let b = spec_encode(a.accumulator, a.ring_buffer_idx, a.height, a.timestamp);
    assert(b.subrange(13, 45) == a.accumulator);
    assert(MAX_PAYLOAD_LEN == 65535);
}

} // verus!
