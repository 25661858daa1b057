//! Probe-transmission and reply-correlation core of a latency measurement
//! tool: wire-format codecs for ICMPv4 and ICMPv6, probe encoding with a
//! correlation token, the IPv4 checksum, the token-keyed correlation table,
//! and the receive-path decisions, including platform IP-header framing.
//!
//! The socket I/O around this core (raw sockets, the background receive
//! task) hands buffers and timestamps in and out as plain values.

pub mod cksum;
pub mod echo;
pub mod error;
pub mod icmp4;
pub mod icmp6;
pub mod probe;
pub mod receive;
pub mod table;
pub mod token;

use vstd::prelude::*;

verus! {

/// Size in bytes of the fixed ICMP header shared by both families.
pub const HEADER_SIZE: usize = 8;

} // verus!
