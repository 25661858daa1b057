use vstd::prelude::*;

verus! {

/// Size in bytes of a correlation token.
pub const TOKEN_SIZE: usize = 8;

/// Opaque fixed-size value embedded in an Echo Request payload and echoed
/// back by the remote host; the key that matches replies to probes.
#[derive(Debug, Clone, Copy)]
pub struct Token(pub [u8; TOKEN_SIZE]);

impl View for Token {
    type V = Seq<u8>;

    open spec fn view(&self) -> Seq<u8> {
        self.0@
    }
}

impl Token {
    /// Byte-wise equality of two tokens.
    pub fn eq_token(&self, other: &Token) -> (r: bool)
        ensures
            r == (self@ == other@),
    {
        let mut i: usize = 0;
        while i < TOKEN_SIZE
            invariant
                i <= TOKEN_SIZE,
                forall|j: int| 0 <= j < i ==> self@[j] == other@[j],
            decreases TOKEN_SIZE - i,
        {
            if self.0[i] != other.0[i] {
                return false;
            }
            i += 1;
        }
        proof {
            assert(self@ =~= other@);
        }
        true
    }

    /// Extracts the token occupying the fixed-size prefix of an echo body's
    /// application data; `None` when the data is too short to hold one.
    pub fn from_data(data: &[u8]) -> (r: Option<Token>)
        ensures
            match r {
                Some(t) => data@.len() >= TOKEN_SIZE && t@ == data@.take(TOKEN_SIZE as int),
                None => data@.len() < TOKEN_SIZE,
            },
    {
        if data.len() < TOKEN_SIZE {
            return None;
        }
        let mut bytes = [0u8; TOKEN_SIZE];
        let mut i: usize = 0;
        while i < TOKEN_SIZE
            invariant
                i <= TOKEN_SIZE,
                data@.len() >= TOKEN_SIZE,
                forall|j: int| 0 <= j < i ==> bytes@[j] == data@[j],
            decreases TOKEN_SIZE - i,
        {
            bytes[i] = data[i];
            i += 1;
        }
        proof {
            assert(bytes@ =~= data@.take(TOKEN_SIZE as int));
        }
        Some(Token(bytes))
    }
}

} // verus!
