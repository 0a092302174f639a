//! The Internet checksum (RFC 1071) as the headers compute it: the sum of
//! 16-bit network-order words, folded twice into 16 bits, then complemented.
use vstd::prelude::*;
use crate::bytes::be16;

verus! {

/// The sum of the first `n` network-order 16-bit words of `s`.
pub open spec fn pair_sum(s: Seq<u8>, n: nat) -> int
    decreases n,
{
    if n == 0 {
        0
    } else {
        pair_sum(s, (n - 1) as nat) + be16(s[2 * (n - 1)], s[2 * (n - 1) + 1])
    }
}

/// One folding step: the carries above 16 bits are added back into the low 16 bits.
pub open spec fn fold(s: int) -> int {
    s % 65536 + s / 65536
}

/// The checksum of a word sum: the sum folded twice, then complemented in 16 bits.
pub open spec fn checksum_from_sum(s: int) -> int {
    65535 - fold(fold(s))
}

/// Words are at most `0xFFFF`, so `n` of them sum to at most `n * 0xFFFF`.
pub proof fn lemma_pair_sum_bounds(s: Seq<u8>, n: nat)
    ensures
        0 <= pair_sum(s, n) <= 65535 * n,
    decreases n,
{
    if n > 0 {
        lemma_pair_sum_bounds(s, (n - 1) as nat);
    }
}

/// A word sum over more words is no smaller.
pub proof fn lemma_pair_sum_mono(s: Seq<u8>, i: nat, n: nat)
    requires
        i <= n,
    ensures
        pair_sum(s, i) <= pair_sum(s, n),
    decreases n - i,
{
    if i < n {
        lemma_pair_sum_mono(s, i, (n - 1) as nat);
    }
}

/// Adds the network-order words of `payload` (a trailing odd byte is left out)
/// to `sum`.
pub fn add_payload_words(sum: u32, payload: &[u8]) -> (r: u32)
    requires
        sum + pair_sum(payload@, payload@.len() / 2) < 0x1_0000_0000,
    ensures
        r == sum + pair_sum(payload@, payload@.len() / 2),
{
    let n = payload.len() / 2;
    let mut sum = sum;
    let ghost start = sum as int;
    let mut i: usize = 0;
    while i < n
        invariant
            n == payload@.len() / 2,
            i <= n,
            sum == start + pair_sum(payload@, i as nat),
            start + pair_sum(payload@, n as nat) < 0x1_0000_0000,
        decreases n - i,
    {
        proof {
            lemma_pair_sum_mono(payload@, (i + 1) as nat, n as nat);
            crate::bytes::lemma_join16(payload@[2 * i as int], payload@[2 * i + 1]);
        }
        assert(2 * i + 1 < payload.len());
        sum = sum + (((payload[2 * i] as u32) << 8u32) | (payload[2 * i + 1] as u32));
        i = i + 1;
    }
    sum
}

/// Folding keeps the value modulo `0xFFFF` and never makes a positive value zero.
pub proof fn lemma_fold(x: int)
    requires
        0 <= x,
    ensures
        fold(x) == x - 65535 * (x / 65536),
        0 <= fold(x) <= x,
        x > 0 ==> fold(x) > 0,
        x < 0x1_0000_0000 ==> fold(x) <= 0x1FFFE,
        x <= 0x1FFFE ==> fold(x) <= 65535,
{
}

/// A twice-folded 32-bit sum fits in 16 bits.
pub proof fn lemma_fold_twice(x: int)
    requires
        0 <= x < 0x1_0000_0000,
    ensures
        0 <= fold(fold(x)) <= 65535,
        fold(fold(x)) == x - 65535 * (x / 65536 + fold(x) / 65536),
        x > 0 ==> fold(fold(x)) > 0,
        x == 0 ==> fold(fold(x)) == 0,
{
    lemma_fold(x);
    lemma_fold(fold(x));
}

/// Adding the checksum of a sum to that sum gives a sum whose checksum is zero:
/// a receiver that sums every word, the checksum included, gets zero.
pub proof fn lemma_checksum_verifies(s: int)
    requires
        0 <= s,
        s + 65535 < 0x1_0000_0000,
    ensures
        0 <= checksum_from_sum(s) <= 65535,
        checksum_from_sum(s + checksum_from_sum(s)) == 0,
{
    lemma_fold_twice(s);
    let c = checksum_from_sum(s);
    let t = s + c;
    lemma_fold_twice(t);
    if s == 0 {
        assert(t == 65535);
        assert(fold(fold(t)) == 65535);
    } else {
        assert(t > 0);
        let k = 1 + s / 65536 + fold(s) / 65536 - t / 65536 - fold(t) / 65536;
        assert(fold(fold(t)) == 65535 * k);
    }
}

/// `!` on a 16-bit value held in a `u32`, truncated, is its 16-bit complement.
proof fn lemma_fold_step_bits(x: u32)
    ensures
        (x & 0xFFFF0000u32 > 0) == (x >= 65536),
        (x & 0xFFFFu32) + ((x >> 16u32) & 0xFFFFu32) == x % 65536 + x / 65536,
        x <= 65535 ==> (!x) as u16 == 65535 - x,
{
    assert((x & 0xFFFF0000u32 > 0) == (x >= 65536)) by (bit_vector);
    assert((x & 0xFFFFu32) + ((x >> 16u32) & 0xFFFFu32) == x % 65536 + x / 65536) by (bit_vector);
    assert(x <= 65535 ==> (!x) as u16 == 65535 - x) by (bit_vector);
}

/// Folds a 32-bit word sum twice and complements it into the 16-bit checksum.
pub fn fold_complement(sum: u32) -> (r: u16)
    ensures
        r == checksum_from_sum(sum as int),
{
    let mut sum = sum;
    let ghost s0 = sum as int;
    proof {
        lemma_fold_step_bits(sum);
        lemma_fold(s0);
    }
    if (sum & 0xFFFF0000u32) > 0 {
        sum = (sum & 0x0000FFFFu32) + ((sum >> 16u32) & 0x0000FFFFu32);
    }
    assert(sum == fold(s0));
    proof {
        lemma_fold_step_bits(sum);
        lemma_fold(sum as int);
        lemma_fold_twice(s0);
    }
    // done twice: one fold can leave a carry
    if (sum & 0xFFFF0000u32) > 0 {
        sum = (sum & 0x0000FFFFu32) + ((sum >> 16u32) & 0x0000FFFFu32);
    }
    assert(sum == fold(fold(s0)));
    proof {
        lemma_fold_step_bits(sum);
    }
    (!sum) as u16
}

} // verus!
