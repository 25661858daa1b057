use vstd::prelude::*;

use crate::cksum::lemma_checksum_bounds;
use crate::cksum::lemma_checksum_self_check;
use crate::cksum::checksum;
use crate::cksum::spec_checksum;
use crate::cksum::with_checksum;
use crate::echo::echo_matches;
use crate::error::EncodeError;
use crate::icmp4;
use crate::icmp4::IcmpV4Packet;
use crate::icmp6;
use crate::icmp6::IcmpV6Packet;
use crate::token::Token;
use crate::token::TOKEN_SIZE;
use crate::HEADER_SIZE;
use vstd::slice::slice_subrange;
use vstd::pervasive::VecAdditionalExecFns;

verus! {

/// Length in bytes of an encoded probe: the eight-byte ICMP header followed
/// by the correlation token.
pub const PROBE_SIZE: usize = 16;

/// A destination address, one variant per family.
#[derive(Debug, Clone, Copy)]
pub enum Addr {
    V4([u8; 4]),
    V6([u8; 16]),
}

/// Immutable description of one outgoing measurement: where it goes, the
/// token that correlates its reply, the hop limit the transport applies,
/// and the opaque identifier and sequence words of its echo body. Built
/// per measurement, consumed by `encode`, then discarded.
#[derive(Debug, Clone, Copy)]
pub struct Probe {
    pub addr: Addr,
    pub ident: u16,
    pub seq: u16,
    pub token: Token,
    pub hops: u8,
}

/// The wire bytes of `p` for its family: kind (Echo Request), code zero, a
/// zeroed checksum placeholder, identifier and sequence big-endian, then
/// the token as the whole application data.
pub open spec fn encoded(p: Probe) -> Seq<u8> {
    seq![
        if p.addr is V4 { icmp4::ECHO_REQUEST } else { icmp6::ECHO_REQUEST },
        0u8,
        0u8,
        0u8,
        (p.ident / 256) as u8,
        (p.ident % 256) as u8,
        (p.seq / 256) as u8,
        (p.seq % 256) as u8,
    ] + p.token@
}

impl Probe {
    /// Writes this probe's wire bytes into the front of `buf`, leaving the
    /// rest of the buffer as it was, and returns the used prefix length.
    /// Fails exactly when the buffer cannot hold the packet.
    pub fn encode(&self, buf: &mut Vec<u8>) -> (r: Result<usize, EncodeError>)
        ensures
            match r {
                Ok(n) => n == PROBE_SIZE && old(buf)@.len() >= PROBE_SIZE
                    && final(buf)@ == encoded(*self) + old(buf)@.skip(PROBE_SIZE as int),
                Err(e) => e == EncodeError::BufferTooSmall && old(buf)@.len() < PROBE_SIZE
                    && final(buf)@ == old(buf)@,
            },
    {
        if buf.len() < PROBE_SIZE {
            return Err(EncodeError::BufferTooSmall);
        }
        let kind: u8 = match self.addr {
            Addr::V4(_) => icmp4::ECHO_REQUEST,
            Addr::V6(_) => icmp6::ECHO_REQUEST,
        };
        buf.set(0, kind);
        buf.set(1, 0);
        buf.set(2, 0);
        buf.set(3, 0);
        buf.set(4, (self.ident / 256) as u8);
        buf.set(5, (self.ident % 256) as u8);
        buf.set(6, (self.seq / 256) as u8);
        buf.set(7, (self.seq % 256) as u8);
        let mut i: usize = 0;
        while i < TOKEN_SIZE
            invariant
                i <= TOKEN_SIZE,
                buf@.len() == old(buf)@.len() >= PROBE_SIZE,
                forall|j: int| 0 <= j < HEADER_SIZE ==> buf@[j] == encoded(*self)[j],
                forall|j: int| 0 <= j < i ==> buf@[HEADER_SIZE + j] == self.token@[j],
                forall|j: int| PROBE_SIZE <= j < buf@.len() ==> buf@[j] == old(buf)@[j],
            decreases TOKEN_SIZE - i,
        {
            buf.set(HEADER_SIZE + i, self.token.0[i]);
            i += 1;
        }
        proof {
            assert(buf@ =~= encoded(*self) + old(buf)@.skip(PROBE_SIZE as int));
        }
        Ok(PROBE_SIZE)
    }
}

/// The compute half of an ICMPv4 send: encodes the probe and embeds the
/// IPv4 checksum over the used prefix. Fails exactly when the destination
/// is not an IPv4 address or the buffer cannot hold the packet; on success
/// the embedded checksum makes the packet's own checksum zero.
pub fn prepare_v4(probe: &Probe, buf: &mut Vec<u8>) -> (r: Result<usize, EncodeError>)
    ensures
        match r {
            Ok(n) => {
                &&& probe.addr is V4
                &&& n == PROBE_SIZE
                &&& old(buf)@.len() >= PROBE_SIZE
                &&& final(buf)@ == with_checksum(encoded(*probe), spec_checksum(encoded(*probe)))
                    + old(buf)@.skip(PROBE_SIZE as int)
                &&& spec_checksum(final(buf)@.take(PROBE_SIZE as int)) == 0
            },
            Err(e) => final(buf)@ == old(buf)@ && match e {
                EncodeError::FamilyMismatch => !(probe.addr is V4),
                EncodeError::BufferTooSmall => probe.addr is V4
                    && old(buf)@.len() < PROBE_SIZE,
            },
        },
{
    match probe.addr {
        Addr::V4(_) => {}
        Addr::V6(_) => {
            return Err(EncodeError::FamilyMismatch);
        }
    }
    let n = match probe.encode(buf) {
        Ok(n) => n,
        Err(e) => {
            return Err(e);
        }
    };
    let ck = checksum(slice_subrange(buf.as_slice(), 0, n));
    proof {
        let enc = encoded(*probe);
        assert(buf@.subrange(0, PROBE_SIZE as int) =~= enc);
        lemma_checksum_bounds(enc);
    }
    buf.set(2, (ck / 256) as u8);
    buf.set(3, (ck % 256) as u8);
    proof {
        let enc = encoded(*probe);
        let tail = old(buf)@.skip(PROBE_SIZE as int);
        assert(with_checksum(enc, 0) =~= enc);
        lemma_checksum_self_check(enc);
        assert(buf@ =~= with_checksum(enc, spec_checksum(enc)) + tail);
        assert(buf@.take(PROBE_SIZE as int) =~= with_checksum(enc, spec_checksum(enc)));
    }
    Ok(n)
}

/// The compute half of an ICMPv6 send: encodes the probe and leaves the
/// checksum zeroed for the kernel, which computes it over the
/// pseudo-header. Fails exactly when the destination is not an IPv6
/// address or the buffer cannot hold the packet.
pub fn prepare_v6(probe: &Probe, buf: &mut Vec<u8>) -> (r: Result<usize, EncodeError>)
    ensures
        match r {
            Ok(n) => {
                &&& probe.addr is V6
                &&& n == PROBE_SIZE
                &&& old(buf)@.len() >= PROBE_SIZE
                &&& final(buf)@ == encoded(*probe) + old(buf)@.skip(PROBE_SIZE as int)
            },
            Err(e) => final(buf)@ == old(buf)@ && match e {
                EncodeError::FamilyMismatch => !(probe.addr is V6),
                EncodeError::BufferTooSmall => probe.addr is V6
                    && old(buf)@.len() < PROBE_SIZE,
            },
        },
{
    match probe.addr {
        Addr::V6(_) => {}
        Addr::V4(_) => {
            return Err(EncodeError::FamilyMismatch);
        }
    }
    probe.encode(buf)
}

/// Round trip for the IPv4 family: any packet the ICMPv4 codec accepts for
/// the encoded bytes of a probe is an Echo Request whose token is the
/// probe's.
pub proof fn lemma_round_trip_v4(p: Probe, r: IcmpV4Packet)
    requires
        p.addr is V4,
        icmp4::parses_to_v4(encoded(p), r),
    ensures
        r matches IcmpV4Packet::EchoRequest(e) && e.data@ == p.token@,
{
    let s = encoded(p);
    assert(s.len() == PROBE_SIZE);
    assert(s[0] == icmp4::ECHO_REQUEST && s[1] == 0);
    match r {
        IcmpV4Packet::EchoRequest(e) => {
            assert(e.data@ =~= p.token@);
        }
        _ => {}
    }
}

/// Round trip for the IPv6 family: any packet the ICMPv6 codec accepts for
/// the encoded bytes of a probe is an Echo Request whose token is the
/// probe's.
pub proof fn lemma_round_trip_v6(p: Probe, r: IcmpV6Packet)
    requires
        p.addr is V6,
        icmp6::parses_to_v6(encoded(p), r),
    ensures
        r matches IcmpV6Packet::EchoRequest(e) && e.data@ == p.token@,
{
    let s = encoded(p);
    assert(s.len() == PROBE_SIZE);
    assert(s[0] == icmp6::ECHO_REQUEST && s[1] == 0);
    match r {
        IcmpV6Packet::EchoRequest(e) => {
            assert(e.data@ =~= p.token@);
        }
        _ => {}
    }
}

} // verus!
