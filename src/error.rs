//! Errors of the frame codec and of the message record.
use vstd::prelude::*;

verus! {

/// Structural malformation of the bytes.
#[derive(Clone, Copy, Debug, PartialEq, Eq, Structural)]
pub enum FramingError {
    /// The first four bytes are not the format's magic.
    BadMagic,
    /// The input ends before a field that the format requires.
    Truncated,
    /// The record does not start with the expected tag.
    TagMismatch,
    /// The header names a kind of payload other than an accumulation attestation.
    UnexpectedPayloadKind { found: u8 },
}

/// A version pair that this decoder does not accept.
#[derive(Clone, Copy, Debug, PartialEq, Eq, Structural)]
pub enum VersionError {
    /// The major version is not exactly the expected one.
    MajorMismatch { found: u16 },
    /// The minor version is below the oldest one supported.
    MinorTooOld { found: u16 },
}

/// Why a frame or a record could not be decoded.
#[derive(Clone, Copy, Debug, PartialEq, Eq, Structural)]
pub enum FrameError {
    Framing(FramingError),
    Version(VersionError),
    /// A declared length cannot hold the fields that it must cover.
    LengthMismatch,
}

} // verus!
