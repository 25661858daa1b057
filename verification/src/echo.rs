use vstd::prelude::*;

use crate::error::DecodeError;
use crate::token::Token;
use crate::token::TOKEN_SIZE;

verus! {

/// Echo body: a 16-bit identifier, a 16-bit sequence number, and the
/// application data that follows them. For probes sent by this library the
/// correlation token occupies a fixed-size prefix of that data.
#[derive(Debug)]
pub struct Echo {
    pub ident: u16,
    pub seq: u16,
    pub data: Vec<u8>,
}

/// `e` is exactly what parsing the echo body `s` yields: identifier and
/// sequence number read big-endian from the first four bytes, the rest
/// copied as application data.
pub open spec fn echo_matches(s: Seq<u8>, e: Echo) -> bool {
    &&& s.len() >= 4
    &&& e.ident == s[0] * 256 + s[1]
    &&& e.seq == s[2] * 256 + s[3]
    &&& e.data@ == s.skip(4)
}

impl Echo {
    /// Parses an echo body; fails only when the buffer cannot hold the
    /// four-byte identifier and sequence fields.
    pub fn try_from(bytes: &[u8]) -> (r: Result<Echo, DecodeError>)
        ensures
            match r {
                Ok(e) => echo_matches(bytes@, e),
                Err(_) => bytes@.len() < 4,
            },
    {
        if bytes.len() < 4 {
            return Err(DecodeError::InvalidPacket);
        }
        let ident = (bytes[0] as u16) * 256 + (bytes[1] as u16);
        let seq = (bytes[2] as u16) * 256 + (bytes[3] as u16);
        let data = copy_tail(bytes, 4);
        Ok(Echo { ident, seq, data })
    }

    /// The correlation token carried in this echo's data, when the data is
    /// long enough to hold one; `None` marks the packet as unrelated.
    pub fn token(&self) -> (r: Option<Token>)
        ensures
            match r {
                Some(t) => self.data@.len() >= TOKEN_SIZE
                    && t@ == self.data@.take(TOKEN_SIZE as int),
                None => self.data@.len() < TOKEN_SIZE,
            },
    {
        Token::from_data(self.data.as_slice())
    }
}

/// Copies the tail of a buffer, from `from` to its end, into a fresh vector.
pub(crate) fn copy_tail(bytes: &[u8], from: usize) -> (r: Vec<u8>)
    requires
        from <= bytes@.len(),
    ensures
        r@ == bytes@.skip(from as int),
{
    let mut out: Vec<u8> = Vec::new();
    let mut i: usize = from;
    while i < bytes.len()
        invariant
            from <= i <= bytes@.len(),
            out@ == bytes@.subrange(from as int, i as int),
        decreases bytes@.len() - i,
    {
        out.push(bytes[i]);
        i += 1;
    }
    proof {
        assert(bytes@.subrange(from as int, bytes@.len() as int) =~= bytes@.skip(from as int));
    }
    out
}

} // verus!
