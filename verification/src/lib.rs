//! A verified codec for hierarchical type-length-value protocol messages:
//! a fixed generic header followed by an ordered run of self-describing
//! attribute records, where a record's value may itself be a nested run.
//!
//! The record layer lives in [`nla`]; three protocols are built on it:
//! connection tracking ([`conntrack`]), ping-pong ([`pingpong`]) and the
//! beverage demonstration protocol ([`tea_coffee`]).  Each data type comes
//! with a mathematical form, every encoder and decoder carries an exact
//! contract over those forms, and each protocol proves its round trip:
//! deserializing a serialized message gives the message back.

use vstd::prelude::*;

pub mod bytes;
pub mod conntrack;
pub mod nla;
pub mod pingpong;
pub mod tea_coffee;
pub mod text;

verus! {

/// The ways a decode can fail.  Encoding never fails: a well-formed in-memory
/// value always has an encoding, and the emit functions require
/// well-formedness.
#[derive(Debug, Clone, Copy, PartialEq, Eq, Structural)]
pub enum DecodeError {
    /// Fewer bytes available than a fixed-width header or a fixed-width
    /// attribute value requires.
    PayloadTooShort,
    /// The record stream cannot be cut into well-formed records: a record
    /// header is cut off, or a declared length is below the header size or
    /// runs past the end of the buffer.
    MalformedRecord,
    /// An attribute kind code outside the closed table of the current
    /// nesting level, carrying the offending (masked) code.
    UnknownKind(u16),
    /// A header field whose raw value is no member of its closed
    /// enumeration, carrying the offending raw value.
    InvalidEnumValue(u8),
    /// A string attribute whose value bytes are not valid UTF-8.
    InvalidStringEncoding,
    /// An outer message-type code that no message variant answers to,
    /// carrying the offending code.
    UnknownMessageType(u16),
}

} // verus!
