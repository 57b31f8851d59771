//! Big-endian integer fields and length-prefixed byte fields.
use vstd::prelude::*;

verus! {

/// The two big-endian bytes of a 16-bit value.
pub open spec fn be16(n: u16) -> Seq<u8> {
    seq![(n / 256) as u8, (n % 256) as u8]
}

/// The 16-bit value of two big-endian bytes.
pub open spec fn be16_value(hi: u8, lo: u8) -> u16 {
    (hi * 256 + lo) as u16
}

/// The eight big-endian bytes of a 64-bit value.
pub open spec fn be64(n: u64) -> Seq<u8> {
    seq![
        (n >> 56u64) as u8,
        (n >> 48u64) as u8,
        (n >> 40u64) as u8,
        (n >> 32u64) as u8,
        (n >> 24u64) as u8,
        (n >> 16u64) as u8,
        (n >> 8u64) as u8,
        n as u8,
    ]
}

/// The 64-bit value of eight big-endian bytes.
pub open spec fn be64_value(b: Seq<u8>) -> u64 {
    (b[0] as u64) << 56u64 | (b[1] as u64) << 48u64 | (b[2] as u64) << 40u64 | (b[3] as u64) << 32u64
        | (b[4] as u64) << 24u64 | (b[5] as u64) << 16u64 | (b[6] as u64) << 8u64 | (b[7] as u64)
}

/// A byte field preceded by its length as a big-endian 16-bit value (the
/// length is kept modulo 2^16, as the encoders write it).
pub open spec fn field16(s: Seq<u8>) -> Seq<u8> {
    be16(s.len() as u16) + s
}

pub proof fn lemma_be16_roundtrip(n: u16)
    ensures
        be16_value(be16(n)[0], be16(n)[1]) == n,
{
}

pub proof fn lemma_be16_value_roundtrip(hi: u8, lo: u8)
    ensures
        be16(be16_value(hi, lo)) == seq![hi, lo],
{
    assert(be16(be16_value(hi, lo)) =~= seq![hi, lo]);
}

pub proof fn lemma_be64_roundtrip(n: u64)
    ensures
        be64_value(be64(n)) == n,
{
    let b = be64(n);
    let (b0, b1, b2, b3, b4, b5, b6, b7) = (b[0], b[1], b[2], b[3], b[4], b[5], b[6], b[7]);
    assert(((b0 as u64) << 56u64 | (b1 as u64) << 48u64 | (b2 as u64) << 40u64 | (b3 as u64) << 32u64
        | (b4 as u64) << 24u64 | (b5 as u64) << 16u64 | (b6 as u64) << 8u64 | (b7 as u64)) == n)
        by (bit_vector)
        requires
            b0 == (n >> 56u64) as u8,
            b1 == (n >> 48u64) as u8,
            b2 == (n >> 40u64) as u8,
            b3 == (n >> 32u64) as u8,
            b4 == (n >> 24u64) as u8,
            b5 == (n >> 16u64) as u8,
            b6 == (n >> 8u64) as u8,
            b7 == n as u8,
    ;
}

pub proof fn lemma_be64_value_roundtrip(b: Seq<u8>)
    requires
        b.len() == 8,
    ensures
        be64(be64_value(b)) == b,
{
    let n = be64_value(b);
    let (b0, b1, b2, b3, b4, b5, b6, b7) = (b[0], b[1], b[2], b[3], b[4], b[5], b[6], b[7]);
    assert((n >> 56u64) as u8 == b0 && (n >> 48u64) as u8 == b1 && (n >> 40u64) as u8 == b2 && (n
        >> 32u64) as u8 == b3 && (n >> 24u64) as u8 == b4 && (n >> 16u64) as u8 == b5 && (n
        >> 8u64) as u8 == b6 && n as u8 == b7) by (bit_vector)
        requires
            n == (b0 as u64) << 56u64 | (b1 as u64) << 48u64 | (b2 as u64) << 40u64 | (b3 as u64)
                << 32u64 | (b4 as u64) << 24u64 | (b5 as u64) << 16u64 | (b6 as u64) << 8u64 | (
            b7 as u64),
    ;
    assert(be64(n) =~= b);
}

/// Reads the big-endian 16-bit value at `at`.
pub fn read_be16(bytes: &[u8], at: usize) -> (r: u16)
    requires
        at + 2 <= bytes@.len(),
    ensures
        r == be16_value(bytes@[at as int], bytes@[at + 1]),
{
    (bytes[at] as u16) * 256 + (bytes[at + 1] as u16)
}

/// Appends the big-endian bytes of `n`.
pub fn push_be16(out: &mut Vec<u8>, n: u16)
    ensures
        final(out)@ == old(out)@ + be16(n),
{
    out.push((n / 256) as u8);
    out.push((n % 256) as u8);
    assert(out@ =~= old(out)@ + be16(n));
}

} // verus!
