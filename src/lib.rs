//! A versioned, byte-exact wire format for accumulator attestations: the
//! attestation frame, the 32-byte identifier with its hex form, and the tagged
//! message record that carries a frame for a host store.
pub mod attestation;
pub mod bytes;
pub mod error;
pub mod frame;
pub mod identifier;
pub mod message;
