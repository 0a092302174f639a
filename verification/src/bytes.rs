//! Big-endian ("network order") byte encodings of 16- and 32-bit values.
use vstd::prelude::*;

verus! {

/// The value of two bytes read in network order.
pub open spec fn be16(hi: u8, lo: u8) -> int {
    hi as int * 256 + lo as int
}

/// The value of four bytes read in network order.
pub open spec fn be32(b0: u8, b1: u8, b2: u8, b3: u8) -> int {
    b0 as int * 16777216 + b1 as int * 65536 + b2 as int * 256 + b3 as int
}

/// The two bytes that encode `x` in network order.
pub open spec fn u16_bytes(x: u16) -> [u8; 2] {
    [(x / 256) as u8, (x % 256) as u8]
}

/// The four bytes that encode `x` in network order.
pub open spec fn u32_bytes(x: u32) -> [u8; 4] {
    [
        (x / 16777216) as u8,
        ((x / 65536) % 256) as u8,
        ((x / 256) % 256) as u8,
        (x % 256) as u8,
    ]
}

/// Joining two bytes with shifts gives their network-order value.
pub proof fn lemma_join16(hi: u8, lo: u8)
    ensures
        ((hi as u16) << 8u16) | (lo as u16) == be16(hi, lo),
        ((hi as u32) << 8u32) | (lo as u32) == be16(hi, lo),
{
    assert(((hi as u16) << 8u16) | (lo as u16) == hi as u16 * 256 + lo as u16) by (bit_vector);
    assert(((hi as u32) << 8u32) | (lo as u32) == hi as u32 * 256 + lo as u32) by (bit_vector);
}

/// Joining four bytes with shifts gives their network-order value.
pub proof fn lemma_join32(b0: u8, b1: u8, b2: u8, b3: u8)
    ensures
        ((b0 as u32) << 24u32) | ((b1 as u32) << 16u32) | ((b2 as u32) << 8u32) | (b3 as u32)
            == be32(b0, b1, b2, b3),
{
    assert(((b0 as u32) << 24u32) | ((b1 as u32) << 16u32) | ((b2 as u32) << 8u32) | (b3 as u32)
        == b0 as u32 * 16777216 + b1 as u32 * 65536 + b2 as u32 * 256 + b3 as u32)
        by (bit_vector);
}

/// Splitting a 16-bit value with shifts and masks gives its two network-order bytes.
pub proof fn lemma_split16(x: u16)
    ensures
        ((x >> 8u16) & 0xFFu16) as u8 == x / 256,
        (x & 0xFFu16) as u8 == x % 256,
        be16((x / 256) as u8, (x % 256) as u8) == x,
{
    assert(((x >> 8u16) & 0xFFu16) as u8 == x / 256) by (bit_vector);
    assert((x & 0xFFu16) as u8 == x % 256) by (bit_vector);
}

/// Splitting a 32-bit value with shifts gives its four network-order bytes.
pub proof fn lemma_split32(x: u32)
    ensures
        (x >> 24u32) as u8 == x / 16777216,
        (x >> 16u32) as u8 == (x / 65536) % 256,
        (x >> 8u32) as u8 == (x / 256) % 256,
        (x >> 0u32) as u8 == x % 256,
        be32(
            (x / 16777216) as u8,
            ((x / 65536) % 256) as u8,
            ((x / 256) % 256) as u8,
            (x % 256) as u8,
        ) == x,
{
    assert((x >> 24u32) as u8 == x / 16777216) by (bit_vector);
    assert((x >> 16u32) as u8 == (x / 65536) % 256) by (bit_vector);
    assert((x >> 8u32) as u8 == (x / 256) % 256) by (bit_vector);
    assert((x >> 0u32) as u8 == x % 256) by (bit_vector);
    assert(x == (x / 16777216) * 16777216 + ((x / 65536) % 256) * 65536 + ((x / 256) % 256) * 256
        + x % 256) by (bit_vector);
}

} // verus!

verus! {

/// Copies `N` bytes of `buf`, starting at `at`, into an array.
pub fn read_array<const N: usize>(buf: &[u8], at: usize) -> (r: [u8; N])
    requires
        at + N <= buf@.len(),
    ensures
        r@ == buf@.subrange(at as int, at + N),
{
    let mut r = [0u8; N];
    let mut i: usize = 0;
    while i < N
        invariant
            i <= N,
            at + N <= buf@.len(),
            r@.len() == N,
            forall|j: int| 0 <= j < i ==> r@[j] == buf@[at + j],
        decreases N - i,
    {
        assert(at + i < buf.len());
        r[i] = buf[at + i];
        i = i + 1;
    }
    assert(r@ =~= buf@.subrange(at as int, at + N));
    r
}

/// Appends the bytes of an array to `out`.
pub fn push_array<const N: usize>(out: &mut Vec<u8>, a: &[u8; N])
    ensures
        final(out)@ == old(out)@ + a@,
{
    let mut i: usize = 0;
    while i < N
        invariant
            i <= N,
            a@.len() == N,
            out@ == old(out)@ + a@.subrange(0, i as int),
        decreases N - i,
    {
        out.push(a[i]);
        i = i + 1;
        assert(out@ =~= old(out)@ + a@.subrange(0, i as int));
    }
    assert(a@.subrange(0, N as int) =~= a@);
}

} // verus!
