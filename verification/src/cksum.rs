use vstd::prelude::*;
use vstd::arithmetic::div_mod::lemma_add_mod_noop;
use vstd::arithmetic::div_mod::lemma_fundamental_div_mod;

verus! {

/// One folding step of the one's-complement accumulator: adds the carry
/// above sixteen bits back into the low sixteen bits.
pub open spec fn fold1(n: int) -> int {
    if n > 0xffff {
        n % 0x10000 + n / 0x10000
    } else {
        n
    }
}

/// The one's-complement accumulator over the sixteen-bit big-endian words
/// of `s`, folded after every addition, starting from `a`; a trailing odd
/// byte counts as the high half of a final word.
pub open spec fn ones_sum(s: Seq<u8>, a: int) -> int
    decreases s.len(),
{
    if s.len() == 0 {
        a
    } else if s.len() == 1 {
        fold1(a + s[0] * 256)
    } else {
        ones_sum(s.skip(2), fold1(a + s[0] * 256 + s[1]))
    }
}

/// The ICMPv4 checksum of a buffer: the folded one's-complement sum of its
/// sixteen-bit words, complemented.
pub open spec fn spec_checksum(s: Seq<u8>) -> int {
    0xffff - ones_sum(s, 0)
}

/// The plain (unfolded) sum of the sixteen-bit big-endian words of `s`.
pub open spec fn word_sum(s: Seq<u8>) -> int
    decreases s.len(),
{
    if s.len() == 0 {
        0
    } else if s.len() == 1 {
        s[0] * 256
    } else {
        s[0] * 256 + s[1] + word_sum(s.skip(2))
    }
}

/// The canonical representative of `n` under one's-complement addition:
/// zero only for zero, otherwise the value in `1 ..= 0xffff` congruent to
/// `n` modulo `0xffff`.
pub open spec fn ones_norm(n: int) -> int {
    if n == 0 {
        0
    } else {
        (n - 1) % 0xffff + 1
    }
}

/// `s` with the checksum `c` embedded big-endian at bytes two and three.
pub open spec fn with_checksum(s: Seq<u8>, c: int) -> Seq<u8> {
    s.update(2, (c / 256) as u8).update(3, (c % 256) as u8)
}

proof fn lemma_fold1_norm(a: int, w: int)
    requires
        0 <= a <= 0xffff,
        0 <= w <= 0xffff,
    ensures
        fold1(a + w) == ones_norm(a + w),
        0 <= fold1(a + w) <= 0xffff,
{
    let n = a + w;
    if n <= 0xffff {
        if n > 0 {
            assert((n - 1) % 0xffff == n - 1);
        }
    } else {
        assert(n / 0x10000 == 1 && n % 0x10000 == n - 0x10000) by {
            lemma_fundamental_div_mod(n, 0x10000);
        };
        assert((n - 1) % 0xffff == n - 1 - 0xffff);
    }
}

proof fn lemma_ones_norm_add(x: int, y: int)
    requires
        x >= 0,
        y >= 0,
    ensures
        ones_norm(ones_norm(x) + y) == ones_norm(x + y),
{
    if x == 0 {
    } else if y == 0 && (x - 1) % 0xffff + 1 == x {
    } else {
        let m = 0xffff;
        let nx = (x - 1) % m + 1;
        lemma_add_mod_noop(x - 1, m + y, m);
        assert((x - 1 + (m + y)) % m == ((x - 1) % m + (m + y) % m) % m);
        lemma_add_mod_noop(nx - 1, m, m);
        assert((nx - 1 + m) % m == ((nx - 1) % m + m % m) % m);
        assert((nx - 1) % m == nx - 1);
        assert((x + y - 1) % m == (nx + y - 1) % m) by {
            lemma_add_mod_noop(x - 1, y, m);
            lemma_add_mod_noop(nx - 1, y, m);
        };
    }
}

proof fn lemma_word_sum_nonneg(s: Seq<u8>)
    ensures
        word_sum(s) >= 0,
    decreases s.len(),
{
    if s.len() >= 2 {
        lemma_word_sum_nonneg(s.skip(2));
    }
}

/// The folded accumulator equals the canonical representative of the plain
/// word sum shifted by the starting value.
proof fn lemma_ones_sum_norm(s: Seq<u8>, a: int)
    requires
        0 <= a <= 0xffff,
    ensures
        ones_sum(s, a) == ones_norm(a + word_sum(s)),
        0 <= ones_sum(s, a) <= 0xffff,
    decreases s.len(),
{
    if s.len() == 0 {
        if a > 0 {
            assert((a - 1) % 0xffff == a - 1);
        }
    } else if s.len() == 1 {
        lemma_fold1_norm(a, s[0] * 256);
    } else {
        let w = s[0] * 256 + s[1];
        lemma_fold1_norm(a, w);
        lemma_ones_sum_norm(s.skip(2), fold1(a + w));
        lemma_word_sum_nonneg(s.skip(2));
        lemma_ones_norm_add(a + w, word_sum(s.skip(2)));
    }
}

/// Bounds of the checksum itself, needed wherever it is stored in sixteen
/// bits.
pub proof fn lemma_checksum_bounds(s: Seq<u8>)
    ensures
        0 <= spec_checksum(s) <= 0xffff,
        0 <= ones_sum(s, 0) <= 0xffff,
{
    lemma_ones_sum_norm(s, 0);
}

/// Checksum self-check: embedding the checksum computed over a buffer whose
/// checksum field is zeroed makes the checksum of the whole buffer zero;
/// equivalently, the folded one's-complement sum of all its sixteen-bit
/// words, checksum included, is the all-ones word.
pub proof fn lemma_checksum_self_check(s: Seq<u8>)
    requires
        s.len() >= 4,
    ensures
        spec_checksum(with_checksum(s, spec_checksum(with_checksum(s, 0)))) == 0,
        ones_sum(with_checksum(s, spec_checksum(with_checksum(s, 0))), 0) == 0xffff,
{
    let z = with_checksum(s, 0);
    lemma_checksum_bounds(z);
    let c = spec_checksum(z);
    let e = with_checksum(s, c);
    lemma_fundamental_div_mod(c, 256);
    assert(0 <= c / 256 < 256 && 0 <= c % 256 < 256);

    assert(e.skip(2).skip(2) =~= e.skip(4));
    assert(z.skip(2).skip(2) =~= z.skip(4));
    assert(e.skip(4) =~= z.skip(4));
    lemma_word_sum_nonneg(e.skip(4));
    assert(word_sum(e) == e[0] * 256 + e[1] + word_sum(e.skip(2)));
    assert(e.skip(2)[0] == e[2] && e.skip(2)[1] == e[3]);
    assert(word_sum(e.skip(2)) == e[2] * 256 + e[3] + word_sum(e.skip(4)));
    assert(word_sum(z) == z[0] * 256 + z[1] + word_sum(z.skip(2)));
    assert(z.skip(2)[0] == z[2] && z.skip(2)[1] == z[3]);
    assert(word_sum(z.skip(2)) == z[2] * 256 + z[3] + word_sum(z.skip(4)));
    assert(z[2] == 0 && z[3] == 0);
    assert(e[0] == z[0] && e[1] == z[1]);
    assert(e[2] * 256 + e[3] == c);
    assert(word_sum(e) == word_sum(z) + c);

    let w = word_sum(z);
    lemma_word_sum_nonneg(z);
    lemma_ones_sum_norm(z, 0);
    let n = ones_norm(w);
    assert(c == 0xffff - n);
    lemma_ones_sum_norm(e, 0);
    lemma_ones_norm_add(w, 0xffff - n);
    assert(ones_norm(w + (0xffff - n)) == ones_norm(n + (0xffff - n)));
    assert(ones_norm(0xffff) == 0xffff) by {
        assert((0xffff - 1) % 0xffff == 0xfffe);
    };
}

/// Computes the ICMPv4 checksum of a buffer: the one's-complement sum of
/// its big-endian sixteen-bit words, folded and complemented. Sent packets
/// need it embedded because raw ICMPv4 sockets do not get kernel-computed
/// checksums.
pub fn checksum(pkt: &[u8]) -> (r: u16)
    ensures
        r == spec_checksum(pkt@),
{
    proof {
        lemma_checksum_bounds(pkt@);
    }
    let n = pkt.len();
    let mut sum: u32 = 0;
    let mut i: usize = 0;
    proof {
        assert(pkt@.skip(0) =~= pkt@);
    }
    while i < n
        invariant
            n == pkt@.len(),
            i <= n,
            0 <= sum <= 0xffff,
            ones_sum(pkt@.skip(i as int), sum as int) == ones_sum(pkt@, 0),
        decreases n - i,
    {
        let ghost pre = pkt@.skip(i as int);
        if i + 1 < n {
            let word: u32 = (pkt[i] as u32) * 256 + (pkt[i + 1] as u32);
            sum = sum + word;
            if sum > 0xffff {
                sum = sum % 0x10000 + sum / 0x10000;
            }
            proof {
                assert(pre[0] == pkt@[i as int] && pre[1] == pkt@[i + 1]);
                assert(pre.skip(2) =~= pkt@.skip(i + 2));
            }
            i = i + 2;
        } else {
            let word: u32 = (pkt[i] as u32) * 256;
            sum = sum + word;
            if sum > 0xffff {
                sum = sum % 0x10000 + sum / 0x10000;
            }
            proof {
                assert(pre.len() == 1);
                assert(pre[0] == pkt@[i as int]);
            }
            i = n;
        }
    }
    proof {
        assert(pkt@.skip(n as int) =~= Seq::<u8>::empty());
    }
    0xffff - (sum as u16)
}

} // verus!
