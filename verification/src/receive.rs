use vstd::prelude::*;

use crate::error::DecodeError;
use crate::icmp4::IcmpV4Packet;
use crate::icmp6::IcmpV6Packet;
use crate::table::Table;
use crate::token::Token;
use crate::token::TOKEN_SIZE;
use crate::HEADER_SIZE;
use vstd::slice::slice_subrange;

verus! {

/// IPv4 protocol number of ICMP, as carried in byte nine of an IPv4
/// header.
pub const IPPROTO_ICMP: u8 = 1;

/// Shortest possible IPv4 header: twenty bytes, five four-byte words.
pub const IPV4_MIN_HEADER: usize = 20;

/// The buffer starts with a well-formed IPv4 header: long enough for the
/// smallest header, version four, a header length of at least five words
/// that lies within the buffer.
pub open spec fn ipv4_header_ok(s: Seq<u8>) -> bool {
    &&& s.len() >= IPV4_MIN_HEADER
    &&& s[0] / 16 == 4
    &&& s[0] % 16 >= 5
    &&& (s[0] % 16) * 4 <= s.len()
}

/// Length in bytes of the IPv4 header at the front of `s`.
pub open spec fn ipv4_header_len(s: Seq<u8>) -> int {
    (s[0] % 16) * 4
}

/// Validates the IPv4 header prefix that some kernels leave on raw ICMPv4
/// sockets and locates the payload behind it. A malformed header is a
/// decode failure; a well-formed header for some other protocol marks the
/// datagram as not ICMP, to be ignored.
pub fn ipv4_payload_offset(pkt: &[u8]) -> (r: Result<Option<usize>, DecodeError>)
    ensures
        match r {
            Ok(Some(off)) => ipv4_header_ok(pkt@) && pkt@[9] == IPPROTO_ICMP
                && off == ipv4_header_len(pkt@),
            Ok(None) => ipv4_header_ok(pkt@) && pkt@[9] != IPPROTO_ICMP,
            Err(_) => !ipv4_header_ok(pkt@),
        },
{
    if pkt.len() < IPV4_MIN_HEADER {
        return Err(DecodeError::InvalidPacket);
    }
    let version = pkt[0] / 16;
    let words = pkt[0] % 16;
    if version != 4 || words < 5 {
        return Err(DecodeError::InvalidPacket);
    }
    let header_len = (words as usize) * 4;
    if header_len > pkt.len() {
        return Err(DecodeError::InvalidPacket);
    }
    if pkt[9] != IPPROTO_ICMP {
        return Ok(None);
    }
    Ok(Some(header_len))
}

/// The token an ICMPv4 buffer's Echo Reply carries: present exactly when
/// the buffer is an Echo Reply whose data holds a whole token-sized
/// prefix.
pub open spec fn reply_token_v4(s: Seq<u8>) -> Option<Seq<u8>> {
    if s.len() >= HEADER_SIZE + TOKEN_SIZE && s[0] == crate::icmp4::ECHO_REPLY && s[1] == 0 {
        Some(s.subrange(HEADER_SIZE as int, (HEADER_SIZE + TOKEN_SIZE) as int))
    } else {
        None
    }
}

/// The token an ICMPv6 buffer's Echo Reply carries.
pub open spec fn reply_token_v6(s: Seq<u8>) -> Option<Seq<u8>> {
    if s.len() >= HEADER_SIZE + TOKEN_SIZE && s[0] == crate::icmp6::ECHO_REPLY && s[1] == 0 {
        Some(s.subrange(HEADER_SIZE as int, (HEADER_SIZE + TOKEN_SIZE) as int))
    } else {
        None
    }
}

/// The IPv4 receive path rejects the datagram outright: with stripping
/// engaged, a malformed IP header; either way, an ICMP part shorter than
/// the fixed header. Such a failure aborts the receive loop.
pub open spec fn v4_recv_rejects(s: Seq<u8>, strip: bool) -> bool {
    if strip {
        !ipv4_header_ok(s) || (s[9] == IPPROTO_ICMP && s.skip(ipv4_header_len(s)).len()
            < HEADER_SIZE)
    } else {
        s.len() < HEADER_SIZE
    }
}

/// The token the IPv4 receive path would resolve for a datagram: none when
/// the datagram is rejected, carries another protocol, is not an Echo
/// Reply, or holds no whole token.
pub open spec fn v4_recv_token(s: Seq<u8>, strip: bool) -> Option<Seq<u8>> {
    if v4_recv_rejects(s, strip) {
        None
    } else if strip {
        if s[9] != IPPROTO_ICMP {
            None
        } else {
            reply_token_v4(s.skip(ipv4_header_len(s)))
        }
    } else {
        reply_token_v4(s)
    }
}

/// One decode-and-dispatch step of the IPv4 receive loop: strips the IP
/// header prefix where the platform delivers one, decodes the datagram,
/// and, only for an Echo Reply carrying a whole token, takes that token's
/// pending handle out of the table. Every other message kind is decoded
/// but not dispatched; an unregistered token is silently ignored; a decode
/// failure is an error, and the caller's loop stops on it.
pub fn receive_v4<V>(table: &mut Table<V>, pkt: &[u8], strip: bool) -> (r: Result<
    Option<V>,
    DecodeError,
>)
    requires
        old(table).wf(),
    ensures
        final(table).wf(),
        match r {
            Err(_) => v4_recv_rejects(pkt@, strip) && final(table)@ == old(table)@,
            Ok(Some(h)) => {
                &&& v4_recv_token(pkt@, strip) matches Some(t)
                    && old(table)@.contains_key(t)
                    && h == old(table)@[t]
                    && final(table)@ == old(table)@.remove(t)
            },
            Ok(None) => !v4_recv_rejects(pkt@, strip)
                && final(table)@ == old(table)@
                && match v4_recv_token(pkt@, strip) {
                    Some(t) => !old(table)@.contains_key(t),
                    None => true,
                },
        },
{
    let icmp: &[u8] = if strip {
        match ipv4_payload_offset(pkt) {
            Err(e) => {
                return Err(e);
            }
            Ok(None) => {
                return Ok(None);
            }
            Ok(Some(off)) => slice_subrange(pkt, off, pkt.len()),
        }
    } else {
        pkt
    };
    proof {
        if strip {
            assert(icmp@ =~= pkt@.skip(ipv4_header_len(pkt@)));
        }
    }
    match IcmpV4Packet::try_from(icmp) {
        Err(e) => Err(e),
        Ok(IcmpV4Packet::EchoReply(echo)) => {
            proof {
                assert(echo.data@.len() >= TOKEN_SIZE
                    ==> echo.data@.take(TOKEN_SIZE as int) =~= icmp@.subrange(
                    HEADER_SIZE as int,
                    (HEADER_SIZE + TOKEN_SIZE) as int,
                ));
            }
            match echo.token() {
                Some(token) => Ok(table.remove(&token)),
                None => Ok(None),
            }
        }
        Ok(_) => Ok(None),
    }
}

/// One decode-and-dispatch step of the IPv6 receive loop. IPv6 raw sockets
/// never deliver an IP header prefix, so the datagram is decoded as it
/// arrived; otherwise the dispatch rule is the IPv4 one.
pub fn receive_v6<V>(table: &mut Table<V>, pkt: &[u8]) -> (r: Result<Option<V>, DecodeError>)
    requires
        old(table).wf(),
    ensures
        final(table).wf(),
        match r {
            Err(_) => pkt@.len() < HEADER_SIZE && final(table)@ == old(table)@,
            Ok(Some(h)) => {
                &&& reply_token_v6(pkt@) matches Some(t)
                    && old(table)@.contains_key(t)
                    && h == old(table)@[t]
                    && final(table)@ == old(table)@.remove(t)
            },
            Ok(None) => pkt@.len() >= HEADER_SIZE
                && final(table)@ == old(table)@
                && match reply_token_v6(pkt@) {
                    Some(t) => !old(table)@.contains_key(t),
                    None => true,
                },
        },
{
    match IcmpV6Packet::try_from(pkt) {
        Err(e) => Err(e),
        Ok(IcmpV6Packet::EchoReply(echo)) => {
            proof {
                assert(echo.data@.len() >= TOKEN_SIZE
                    ==> echo.data@.take(TOKEN_SIZE as int) =~= pkt@.subrange(
                    HEADER_SIZE as int,
                    (HEADER_SIZE + TOKEN_SIZE) as int,
                ));
            }
            match echo.token() {
                Some(token) => Ok(table.remove(&token)),
                None => Ok(None),
            }
        }
        Ok(_) => Ok(None),
    }
}

/// Platform framing: behind a well-formed twenty-byte IPv4 header that
/// declares ICMP, the receive path with stripping engaged resolves exactly
/// the token the bare ICMP buffer would resolve without stripping.
pub proof fn lemma_framing_strip(head: Seq<u8>, inner: Seq<u8>)
    requires
        head.len() == IPV4_MIN_HEADER,
        head[0] == 0x45,
        head[9] == IPPROTO_ICMP,
    ensures
        v4_recv_token(head + inner, true) == v4_recv_token(inner, false),
        v4_recv_rejects(head + inner, true) == v4_recv_rejects(inner, false),
{
    let s = head + inner;
    assert(s[0] == 0x45 && s[9] == head[9]);
    assert(ipv4_header_len(s) == 20);
    assert(s.skip(20) =~= inner);
}

} // verus!
