use vstd::prelude::*;

use crate::echo::copy_tail;
use crate::echo::echo_matches;
use crate::echo::Echo;
use crate::error::DecodeError;
use crate::HEADER_SIZE;
use vstd::slice::slice_subrange;

verus! {

pub const UNREACHABLE: u8 = 1;
pub const TIME_EXCEEDED: u8 = 3;
pub const ECHO_REQUEST: u8 = 128;
pub const ECHO_REPLY: u8 = 129;

/// An inbound ICMPv6 message: byte zero is the kind, byte one the code,
/// bytes two and three the checksum, bytes four to seven type-specific,
/// the rest the body. The checksum is never computed here: the kernel
/// fills it in over the pseudo-header.
#[derive(Debug)]
pub enum IcmpV6Packet {
    Unreachable(Unreachable),
    EchoRequest(Echo),
    EchoReply(Echo),
    HopLimitExceeded(Vec<u8>),
    ReassemblyTimeExceeded(Vec<u8>),
    Other(u8, u8, Vec<u8>),
}

/// Sub-reasons of an ICMPv6 Destination Unreachable message, with the
/// trailing bytes that follow the unused word.
#[derive(Debug)]
pub enum Unreachable {
    Address(Vec<u8>),
    Port(Vec<u8>),
    Other(u8, Vec<u8>),
}

/// The kind/code pairs the ICMPv6 table documents; anything else parses to
/// `Other` without error.
pub open spec fn listed_v6(kind: u8, code: u8) -> bool {
    ||| kind == UNREACHABLE
    ||| (kind == TIME_EXCEEDED && (code == 0 || code == 1))
    ||| (kind == ECHO_REQUEST && code == 0)
    ||| (kind == ECHO_REPLY && code == 0)
}

/// `u` is exactly what the Unreachable sub-table yields for `code` over
/// `rest`, the bytes after the fixed four-byte prefix: code three is
/// address, four is port, anything else is kept raw.
pub open spec fn unreachable_matches_v6(code: u8, rest: Seq<u8>, u: Unreachable) -> bool {
    &&& rest.len() >= 4
    &&& match u {
        Unreachable::Address(d) => code == 3 && d@ == rest.skip(4),
        Unreachable::Port(d) => code == 4 && d@ == rest.skip(4),
        Unreachable::Other(c, d) => c == code && code != 3 && code != 4 && d@ == rest.skip(4),
    }
}

/// `p` is exactly what the ICMPv6 table yields for the buffer `s`: each
/// listed kind/code pair gives its documented variant over the bytes after
/// the first four (Time Exceeded with four reserved bytes preceding its
/// trailing data), every unlisted pair is kept raw in `Other`.
pub open spec fn parses_to_v6(s: Seq<u8>, p: IcmpV6Packet) -> bool {
    &&& s.len() >= HEADER_SIZE
    &&& {
        let kind = s[0];
        let code = s[1];
        let rest = s.skip(4);
        match p {
            IcmpV6Packet::Unreachable(u) => kind == UNREACHABLE
                && unreachable_matches_v6(code, rest, u),
            IcmpV6Packet::EchoRequest(e) => kind == ECHO_REQUEST && code == 0
                && echo_matches(rest, e),
            IcmpV6Packet::EchoReply(e) => kind == ECHO_REPLY && code == 0
                && echo_matches(rest, e),
            IcmpV6Packet::HopLimitExceeded(d) => kind == TIME_EXCEEDED && code == 0
                && d@ == rest.skip(4),
            IcmpV6Packet::ReassemblyTimeExceeded(d) => kind == TIME_EXCEEDED && code == 1
                && d@ == rest.skip(4),
            IcmpV6Packet::Other(k, c, d) => k == kind && c == code && !listed_v6(kind, code)
                && d@ == rest,
        }
    }
}

/// Codec completeness: for any buffer long enough to parse, each listed
/// kind/code pair forces its documented variant, and every unlisted pair
/// forces `Other` carrying the pair itself.
pub proof fn lemma_codec_complete_v6(s: Seq<u8>, p: IcmpV6Packet)
    requires
        parses_to_v6(s, p),
    ensures
        s[0] == UNREACHABLE ==> p is Unreachable,
        s[0] == ECHO_REQUEST && s[1] == 0 ==> p is EchoRequest,
        s[0] == ECHO_REPLY && s[1] == 0 ==> p is EchoReply,
        s[0] == TIME_EXCEEDED && s[1] == 0 ==> p is HopLimitExceeded,
        s[0] == TIME_EXCEEDED && s[1] == 1 ==> p is ReassemblyTimeExceeded,
        !listed_v6(s[0], s[1]) ==> (p matches IcmpV6Packet::Other(k, c, _) && k == s[0]
            && c == s[1]),
{
}

impl Unreachable {
    /// Maps an Unreachable code over the type-specific bytes and body.
    pub fn try_from(code: u8, slice: &[u8]) -> (r: Result<Unreachable, DecodeError>)
        requires
            slice@.len() >= 4,
        ensures
            match r {
                Ok(u) => unreachable_matches_v6(code, slice@, u),
                Err(_) => false,
            },
    {
        let data = copy_tail(slice, 4);
        Ok(
            match code {
                3 => Unreachable::Address(data),
                4 => Unreachable::Port(data),
                c => Unreachable::Other(c, data),
            },
        )
    }
}

impl IcmpV6Packet {
    /// Parses an inbound ICMPv6 buffer. Fails exactly on buffers shorter
    /// than the fixed eight-byte header; any longer buffer parses, listed
    /// kind/code pairs to their documented variant and unlisted pairs to
    /// `Other`.
    pub fn try_from(slice: &[u8]) -> (r: Result<IcmpV6Packet, DecodeError>)
        ensures
            match r {
                Ok(p) => parses_to_v6(slice@, p),
                Err(_) => slice@.len() < HEADER_SIZE,
            },
    {
        if slice.len() < HEADER_SIZE {
            return Err(DecodeError::InvalidPacket);
        }

        let kind = slice[0];
        let code = slice[1];
        let rest = slice_subrange(slice, 4, slice.len());
        proof {
            assert(rest@ =~= slice@.skip(4));
            assert(rest@.skip(0) =~= rest@);
        }

        match (kind, code) {
            (UNREACHABLE, _) => match Unreachable::try_from(code, rest) {
                Ok(u) => Ok(IcmpV6Packet::Unreachable(u)),
                Err(e) => Err(e),
            },
            (TIME_EXCEEDED, 0) => Ok(IcmpV6Packet::HopLimitExceeded(copy_tail(rest, 4))),
            (TIME_EXCEEDED, 1) => Ok(IcmpV6Packet::ReassemblyTimeExceeded(copy_tail(rest, 4))),
            (ECHO_REQUEST, 0) => match Echo::try_from(rest) {
                Ok(e) => Ok(IcmpV6Packet::EchoRequest(e)),
                Err(e) => Err(e),
            },
            (ECHO_REPLY, 0) => match Echo::try_from(rest) {
                Ok(e) => Ok(IcmpV6Packet::EchoReply(e)),
                Err(e) => Err(e),
            },
            _ => Ok(IcmpV6Packet::Other(kind, code, copy_tail(rest, 0))),
        }
    }
}

} // verus!
