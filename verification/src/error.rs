use vstd::prelude::*;

verus! {

/// Failure of the encode path: either the caller's buffer cannot hold the
/// packet, or the probe's destination family is not the channel's family.
/// Both are fatal to that send call only.
#[derive(Debug, Clone, Copy, PartialEq, Eq, Structural)]
pub enum EncodeError {
    BufferTooSmall,
    FamilyMismatch,
}

/// Failure of the decode path: an inbound buffer too short to hold the
/// fixed eight-byte ICMP header, or a malformed IP header prefix where the
/// platform delivers one.
#[derive(Debug, Clone, Copy, PartialEq, Eq, Structural)]
pub enum DecodeError {
    InvalidPacket,
}

} // verus!
