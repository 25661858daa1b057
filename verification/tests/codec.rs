use netprobe::cksum::checksum;
use netprobe::icmp4;
use netprobe::icmp4::IcmpV4Packet;
use netprobe::icmp6;
use netprobe::icmp6::IcmpV6Packet;

fn v4_buf(kind: u8, code: u8, body: &[u8]) -> Vec<u8> {
    let mut buf = vec![kind, code, 0, 0];
    buf.extend_from_slice(body);
    buf
}

#[test]
fn v4_echo_reply_parses() {
    let buf = v4_buf(0, 0, &[0, 7, 0, 9, 1, 2, 3]);
    match IcmpV4Packet::try_from(&buf).unwrap() {
        IcmpV4Packet::EchoReply(e) => {
            assert_eq!(e.ident, 7);
            assert_eq!(e.seq, 9);
            assert_eq!(e.data, vec![1, 2, 3]);
        }
        other => panic!("wrong variant: {:?}", other),
    }
}

#[test]
fn v4_echo_request_parses() {
    let buf = v4_buf(8, 0, &[1, 0, 0, 2, 0xaa]);
    match IcmpV4Packet::try_from(&buf).unwrap() {
        IcmpV4Packet::EchoRequest(e) => {
            assert_eq!(e.ident, 256);
            assert_eq!(e.seq, 2);
            assert_eq!(e.data, vec![0xaa]);
        }
        other => panic!("wrong variant: {:?}", other),
    }
}

#[test]
fn v4_unreachable_codes() {
    let buf = v4_buf(3, 1, &[0, 0, 0, 0, 5, 6]);
    match IcmpV4Packet::try_from(&buf).unwrap() {
        IcmpV4Packet::Unreachable(icmp4::Unreachable::Host(d)) => assert_eq!(d, vec![5, 6]),
        other => panic!("wrong variant: {:?}", other),
    }
    let buf = v4_buf(3, 3, &[0, 0, 0, 0, 7]);
    match IcmpV4Packet::try_from(&buf).unwrap() {
        IcmpV4Packet::Unreachable(icmp4::Unreachable::Port(d)) => assert_eq!(d, vec![7]),
        other => panic!("wrong variant: {:?}", other),
    }
    let buf = v4_buf(3, 9, &[0, 0, 0, 0, 8]);
    match IcmpV4Packet::try_from(&buf).unwrap() {
        IcmpV4Packet::Unreachable(icmp4::Unreachable::Other(c, d)) => {
            assert_eq!(c, 9);
            assert_eq!(d, vec![8]);
        }
        other => panic!("wrong variant: {:?}", other),
    }
}

#[test]
fn v4_time_exceeded_codes() {
    let buf = v4_buf(11, 0, &[0, 0, 0, 0, 0x45, 1]);
    match IcmpV4Packet::try_from(&buf).unwrap() {
        IcmpV4Packet::HopLimitExceeded(d) => assert_eq!(d, vec![0x45, 1]),
        other => panic!("wrong variant: {:?}", other),
    }
    let buf = v4_buf(11, 1, &[0, 0, 0, 0, 2]);
    match IcmpV4Packet::try_from(&buf).unwrap() {
        IcmpV4Packet::ReassemblyTimeExceeded(d) => assert_eq!(d, vec![2]),
        other => panic!("wrong variant: {:?}", other),
    }
}

#[test]
fn v4_unlisted_pairs_are_other() {
    for (kind, code) in [(0u8, 1u8), (8, 2), (11, 2), (5, 0), (42, 9)] {
        let buf = v4_buf(kind, code, &[1, 2, 3, 4, 9]);
        match IcmpV4Packet::try_from(&buf).unwrap() {
            IcmpV4Packet::Other(k, c, d) => {
                assert_eq!(k, kind);
                assert_eq!(c, code);
                assert_eq!(d, vec![1, 2, 3, 4, 9]);
            }
            other => panic!("wrong variant for ({kind}, {code}): {:?}", other),
        }
    }
}

#[test]
fn v6_echo_pair_parses() {
    let buf = v4_buf(128, 0, &[0, 1, 0, 2, 3]);
    match IcmpV6Packet::try_from(&buf).unwrap() {
        IcmpV6Packet::EchoRequest(e) => {
            assert_eq!(e.ident, 1);
            assert_eq!(e.seq, 2);
            assert_eq!(e.data, vec![3]);
        }
        other => panic!("wrong variant: {:?}", other),
    }
    let buf = v4_buf(129, 0, &[0, 1, 0, 2, 4]);
    match IcmpV6Packet::try_from(&buf).unwrap() {
        IcmpV6Packet::EchoReply(e) => assert_eq!(e.data, vec![4]),
        other => panic!("wrong variant: {:?}", other),
    }
}

#[test]
fn v6_unreachable_codes() {
    let buf = v4_buf(1, 3, &[0, 0, 0, 0, 5]);
    match IcmpV6Packet::try_from(&buf).unwrap() {
        IcmpV6Packet::Unreachable(icmp6::Unreachable::Address(d)) => assert_eq!(d, vec![5]),
        other => panic!("wrong variant: {:?}", other),
    }
    let buf = v4_buf(1, 4, &[0, 0, 0, 0, 6]);
    match IcmpV6Packet::try_from(&buf).unwrap() {
        IcmpV6Packet::Unreachable(icmp6::Unreachable::Port(d)) => assert_eq!(d, vec![6]),
        other => panic!("wrong variant: {:?}", other),
    }
    let buf = v4_buf(1, 0, &[0, 0, 0, 0, 7]);
    match IcmpV6Packet::try_from(&buf).unwrap() {
        IcmpV6Packet::Unreachable(icmp6::Unreachable::Other(c, d)) => {
            assert_eq!(c, 0);
            assert_eq!(d, vec![7]);
        }
        other => panic!("wrong variant: {:?}", other),
    }
}

#[test]
fn v6_time_exceeded_codes() {
    let buf = v4_buf(3, 0, &[0, 0, 0, 0, 1, 2]);
    match IcmpV6Packet::try_from(&buf).unwrap() {
        IcmpV6Packet::HopLimitExceeded(d) => assert_eq!(d, vec![1, 2]),
        other => panic!("wrong variant: {:?}", other),
    }
    let buf = v4_buf(3, 1, &[0, 0, 0, 0, 3]);
    match IcmpV6Packet::try_from(&buf).unwrap() {
        IcmpV6Packet::ReassemblyTimeExceeded(d) => assert_eq!(d, vec![3]),
        other => panic!("wrong variant: {:?}", other),
    }
}

#[test]
fn v6_unlisted_pairs_are_other() {
    for (kind, code) in [(128u8, 1u8), (129, 2), (3, 2), (2, 0), (200, 7)] {
        let buf = v4_buf(kind, code, &[9, 8, 7, 6, 5]);
        match IcmpV6Packet::try_from(&buf).unwrap() {
            IcmpV6Packet::Other(k, c, d) => {
                assert_eq!(k, kind);
                assert_eq!(c, code);
                assert_eq!(d, vec![9, 8, 7, 6, 5]);
            }
            other => panic!("wrong variant for ({kind}, {code}): {:?}", other),
        }
    }
}

#[test]
fn short_buffers_rejected_both_families() {
    for len in 0..8 {
        let buf = vec![0u8; len];
        assert!(IcmpV4Packet::try_from(&buf).is_err(), "v4 len {len}");
        assert!(IcmpV6Packet::try_from(&buf).is_err(), "v6 len {len}");
        let buf = vec![8u8; len];
        assert!(IcmpV4Packet::try_from(&buf).is_err(), "v4 len {len}");
        assert!(IcmpV6Packet::try_from(&buf).is_err(), "v6 len {len}");
    }
    assert!(IcmpV4Packet::try_from(&[0u8; 8]).is_ok());
    assert!(IcmpV6Packet::try_from(&[0u8; 8]).is_ok());
}

fn fold_sum(buf: &[u8]) -> u32 {
    let mut sum: u32 = 0;
    for chunk in buf.chunks(2) {
        let word = if chunk.len() == 2 {
            (chunk[0] as u32) * 256 + chunk[1] as u32
        } else {
            (chunk[0] as u32) * 256
        };
        sum += word;
    }
    while sum >> 16 > 0 {
        sum = (sum & 0xffff) + (sum >> 16);
    }
    sum
}

#[test]
fn checksum_exact_value() {
    // One's-complement sum of 0x0800 and 0x0102 is 0x0902; complemented.
    let buf = [8u8, 0, 0, 0, 1, 2];
    assert_eq!(checksum(&buf), !0x0902u16);
    // A trailing odd byte counts as the high half of a final word.
    let buf = [8u8, 0, 0, 0, 1];
    assert_eq!(checksum(&buf), !0x0900u16);
}

#[test]
fn checksum_self_check() {
    let bufs: [&[u8]; 3] = [
        &[8, 0, 0, 0, 0, 1, 0, 2, 1, 2, 3, 4, 5, 6, 7, 8],
        &[0xff; 8],
        &[11, 0, 0, 0, 9, 9, 9],
    ];
    for body in bufs {
        let mut buf = body.to_vec();
        buf[2] = 0;
        buf[3] = 0;
        let ck = checksum(&buf);
        buf[2..4].copy_from_slice(&ck.to_be_bytes());
        // The folded one's-complement sum of all words, checksum included,
        // is the all-ones word, so the checksum of the buffer is zero.
        assert_eq!(fold_sum(&buf), 0xffff);
        assert_eq!(checksum(&buf), 0);
    }
}
