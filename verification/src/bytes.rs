//! Little-endian encodings of 64-bit and 128-bit integers.
use vstd::prelude::*;

verus! {

/// The `u64` whose little-endian bytes are `b` (which has 8 elements).
pub open spec fn le_u64(b: Seq<u8>) -> u64 {
    (b[0] as u64)
        | ((b[1] as u64) << 8u64)
        | ((b[2] as u64) << 16u64)
        | ((b[3] as u64) << 24u64)
        | ((b[4] as u64) << 32u64)
        | ((b[5] as u64) << 40u64)
        | ((b[6] as u64) << 48u64)
        | ((b[7] as u64) << 56u64)
}

/// The 8 little-endian bytes of `x`.
pub open spec fn u64_le_bytes(x: u64) -> Seq<u8> {
    seq![
        (x & 0xff) as u8,
        ((x >> 8u64) & 0xff) as u8,
        ((x >> 16u64) & 0xff) as u8,
        ((x >> 24u64) & 0xff) as u8,
        ((x >> 32u64) & 0xff) as u8,
        ((x >> 40u64) & 0xff) as u8,
        ((x >> 48u64) & 0xff) as u8,
        ((x >> 56u64) & 0xff) as u8,
    ]
}

/// Reads a little-endian `u64` from `s` at `pos`.
pub fn read_u64(s: &[u8], pos: usize) -> (r: u64)
    requires
        pos + 8 <= s@.len(),
    ensures
        r == le_u64(s@.subrange(pos as int, pos + 8)),
{
    let ghost b = s@.subrange(pos as int, pos + 8);
    assert(forall|i: int| 0 <= i < 8 ==> b[i] == s@[pos + i]);
    (s[pos] as u64)
        | ((s[pos + 1] as u64) << 8u64)
        | ((s[pos + 2] as u64) << 16u64)
        | ((s[pos + 3] as u64) << 24u64)
        | ((s[pos + 4] as u64) << 32u64)
        | ((s[pos + 5] as u64) << 40u64)
        | ((s[pos + 6] as u64) << 48u64)
        | ((s[pos + 7] as u64) << 56u64)
}

/// Appends the little-endian bytes of `x` to `out`.
pub fn write_u64(x: u64, out: &mut Vec<u8>)
    ensures
        final(out)@ == old(out)@ + u64_le_bytes(x),
{
    let ghost start = out@;
    out.push((x & 0xff) as u8);
    out.push(((x >> 8u64) & 0xff) as u8);
    out.push(((x >> 16u64) & 0xff) as u8);
    out.push(((x >> 24u64) & 0xff) as u8);
    out.push(((x >> 32u64) & 0xff) as u8);
    out.push(((x >> 40u64) & 0xff) as u8);
    out.push(((x >> 48u64) & 0xff) as u8);
    out.push(((x >> 56u64) & 0xff) as u8);
    assert(out@ =~= start + u64_le_bytes(x));
}

proof fn lemma_u64_bytes_of_value(b0: u8, b1: u8, b2: u8, b3: u8, b4: u8, b5: u8, b6: u8, b7: u8, x: u64)
    by (bit_vector)
    requires
        x == (b0 as u64)
            | ((b1 as u64) << 8u64)
            | ((b2 as u64) << 16u64)
            | ((b3 as u64) << 24u64)
            | ((b4 as u64) << 32u64)
            | ((b5 as u64) << 40u64)
            | ((b6 as u64) << 48u64)
            | ((b7 as u64) << 56u64),
    ensures
        ((x & 0xff) as u8) == b0,
        (((x >> 8u64) & 0xff) as u8) == b1,
        (((x >> 16u64) & 0xff) as u8) == b2,
        (((x >> 24u64) & 0xff) as u8) == b3,
        (((x >> 32u64) & 0xff) as u8) == b4,
        (((x >> 40u64) & 0xff) as u8) == b5,
        (((x >> 48u64) & 0xff) as u8) == b6,
        (((x >> 56u64) & 0xff) as u8) == b7,
{
}

proof fn lemma_u64_value_of_bytes(x: u64)
    by (bit_vector)
    ensures
        x == ((x & 0xff) as u8 as u64)
            | ((((x >> 8u64) & 0xff) as u8 as u64) << 8u64)
            | ((((x >> 16u64) & 0xff) as u8 as u64) << 16u64)
            | ((((x >> 24u64) & 0xff) as u8 as u64) << 24u64)
            | ((((x >> 32u64) & 0xff) as u8 as u64) << 32u64)
            | ((((x >> 40u64) & 0xff) as u8 as u64) << 40u64)
            | ((((x >> 48u64) & 0xff) as u8 as u64) << 48u64)
            | ((((x >> 56u64) & 0xff) as u8 as u64) << 56u64),
{
}

/// Reading the bytes of `x` gives `x` back.
pub proof fn lemma_le_u64_of_bytes(x: u64)
    ensures
        le_u64(u64_le_bytes(x)) == x,
{
    lemma_u64_value_of_bytes(x);
}

/// Writing the value that 8 bytes denote gives the bytes back.
pub proof fn lemma_bytes_of_le_u64(b: Seq<u8>)
    requires
        b.len() == 8,
    ensures
        u64_le_bytes(le_u64(b)) == b,
{
    lemma_u64_bytes_of_value(b[0], b[1], b[2], b[3], b[4], b[5], b[6], b[7], le_u64(b));
    assert(u64_le_bytes(le_u64(b)) =~= b);
}

/// The `u128` whose little-endian bytes are `b` (which has 16 elements).
pub open spec fn le_u128(b: Seq<u8>) -> u128 {
    (b[0] as u128)
        | ((b[1] as u128) << 8u128)
        | ((b[2] as u128) << 16u128)
        | ((b[3] as u128) << 24u128)
        | ((b[4] as u128) << 32u128)
        | ((b[5] as u128) << 40u128)
        | ((b[6] as u128) << 48u128)
        | ((b[7] as u128) << 56u128)
        | ((b[8] as u128) << 64u128)
        | ((b[9] as u128) << 72u128)
        | ((b[10] as u128) << 80u128)
        | ((b[11] as u128) << 88u128)
        | ((b[12] as u128) << 96u128)
        | ((b[13] as u128) << 104u128)
        | ((b[14] as u128) << 112u128)
        | ((b[15] as u128) << 120u128)
}

/// The 16 little-endian bytes of `x`.
pub open spec fn u128_le_bytes(x: u128) -> Seq<u8> {
    seq![
        (x & 0xff) as u8,
        ((x >> 8u128) & 0xff) as u8,
        ((x >> 16u128) & 0xff) as u8,
        ((x >> 24u128) & 0xff) as u8,
        ((x >> 32u128) & 0xff) as u8,
        ((x >> 40u128) & 0xff) as u8,
        ((x >> 48u128) & 0xff) as u8,
        ((x >> 56u128) & 0xff) as u8,
        ((x >> 64u128) & 0xff) as u8,
        ((x >> 72u128) & 0xff) as u8,
        ((x >> 80u128) & 0xff) as u8,
        ((x >> 88u128) & 0xff) as u8,
        ((x >> 96u128) & 0xff) as u8,
        ((x >> 104u128) & 0xff) as u8,
        ((x >> 112u128) & 0xff) as u8,
        ((x >> 120u128) & 0xff) as u8,
    ]
}

/// Reads a little-endian `u128` from `s` at `pos`.
pub fn read_u128(s: &[u8], pos: usize) -> (r: u128)
    requires
        pos + 16 <= s@.len(),
    ensures
        r == le_u128(s@.subrange(pos as int, pos + 16)),
{
    let ghost b = s@.subrange(pos as int, pos + 16);
    assert(forall|i: int| 0 <= i < 16 ==> b[i] == s@[pos + i]);
    (s[pos] as u128)
        | ((s[pos + 1] as u128) << 8u128)
        | ((s[pos + 2] as u128) << 16u128)
        | ((s[pos + 3] as u128) << 24u128)
        | ((s[pos + 4] as u128) << 32u128)
        | ((s[pos + 5] as u128) << 40u128)
        | ((s[pos + 6] as u128) << 48u128)
        | ((s[pos + 7] as u128) << 56u128)
        | ((s[pos + 8] as u128) << 64u128)
        | ((s[pos + 9] as u128) << 72u128)
        | ((s[pos + 10] as u128) << 80u128)
        | ((s[pos + 11] as u128) << 88u128)
        | ((s[pos + 12] as u128) << 96u128)
        | ((s[pos + 13] as u128) << 104u128)
        | ((s[pos + 14] as u128) << 112u128)
        | ((s[pos + 15] as u128) << 120u128)
}

/// Appends the little-endian bytes of `x` to `out`.
pub fn write_u128(x: u128, out: &mut Vec<u8>)
    ensures
        final(out)@ == old(out)@ + u128_le_bytes(x),
{
    let ghost start = out@;
    out.push((x & 0xff) as u8);
    out.push(((x >> 8u128) & 0xff) as u8);
    out.push(((x >> 16u128) & 0xff) as u8);
    out.push(((x >> 24u128) & 0xff) as u8);
    out.push(((x >> 32u128) & 0xff) as u8);
    out.push(((x >> 40u128) & 0xff) as u8);
    out.push(((x >> 48u128) & 0xff) as u8);
    out.push(((x >> 56u128) & 0xff) as u8);
    out.push(((x >> 64u128) & 0xff) as u8);
    out.push(((x >> 72u128) & 0xff) as u8);
    out.push(((x >> 80u128) & 0xff) as u8);
    out.push(((x >> 88u128) & 0xff) as u8);
    out.push(((x >> 96u128) & 0xff) as u8);
    out.push(((x >> 104u128) & 0xff) as u8);
    out.push(((x >> 112u128) & 0xff) as u8);
    out.push(((x >> 120u128) & 0xff) as u8);
    assert(out@ =~= start + u128_le_bytes(x));
}

proof fn lemma_u128_bytes_of_value(b0: u8, b1: u8, b2: u8, b3: u8, b4: u8, b5: u8, b6: u8, b7: u8, b8: u8, b9: u8, b10: u8, b11: u8, b12: u8, b13: u8, b14: u8, b15: u8, x: u128)
    by (bit_vector)
    requires
        x == (b0 as u128)
            | ((b1 as u128) << 8u128)
            | ((b2 as u128) << 16u128)
            | ((b3 as u128) << 24u128)
            | ((b4 as u128) << 32u128)
            | ((b5 as u128) << 40u128)
            | ((b6 as u128) << 48u128)
            | ((b7 as u128) << 56u128)
            | ((b8 as u128) << 64u128)
            | ((b9 as u128) << 72u128)
            | ((b10 as u128) << 80u128)
            | ((b11 as u128) << 88u128)
            | ((b12 as u128) << 96u128)
            | ((b13 as u128) << 104u128)
            | ((b14 as u128) << 112u128)
            | ((b15 as u128) << 120u128),
    ensures
        ((x & 0xff) as u8) == b0,
        (((x >> 8u128) & 0xff) as u8) == b1,
        (((x >> 16u128) & 0xff) as u8) == b2,
        (((x >> 24u128) & 0xff) as u8) == b3,
        (((x >> 32u128) & 0xff) as u8) == b4,
        (((x >> 40u128) & 0xff) as u8) == b5,
        (((x >> 48u128) & 0xff) as u8) == b6,
        (((x >> 56u128) & 0xff) as u8) == b7,
        (((x >> 64u128) & 0xff) as u8) == b8,
        (((x >> 72u128) & 0xff) as u8) == b9,
        (((x >> 80u128) & 0xff) as u8) == b10,
        (((x >> 88u128) & 0xff) as u8) == b11,
        (((x >> 96u128) & 0xff) as u8) == b12,
        (((x >> 104u128) & 0xff) as u8) == b13,
        (((x >> 112u128) & 0xff) as u8) == b14,
        (((x >> 120u128) & 0xff) as u8) == b15,
{
}

proof fn lemma_u128_value_of_bytes(x: u128)
    by (bit_vector)
    ensures
        x == ((x & 0xff) as u8 as u128)
            | ((((x >> 8u128) & 0xff) as u8 as u128) << 8u128)
            | ((((x >> 16u128) & 0xff) as u8 as u128) << 16u128)
            | ((((x >> 24u128) & 0xff) as u8 as u128) << 24u128)
            | ((((x >> 32u128) & 0xff) as u8 as u128) << 32u128)
            | ((((x >> 40u128) & 0xff) as u8 as u128) << 40u128)
            | ((((x >> 48u128) & 0xff) as u8 as u128) << 48u128)
            | ((((x >> 56u128) & 0xff) as u8 as u128) << 56u128)
            | ((((x >> 64u128) & 0xff) as u8 as u128) << 64u128)
            | ((((x >> 72u128) & 0xff) as u8 as u128) << 72u128)
            | ((((x >> 80u128) & 0xff) as u8 as u128) << 80u128)
            | ((((x >> 88u128) & 0xff) as u8 as u128) << 88u128)
            | ((((x >> 96u128) & 0xff) as u8 as u128) << 96u128)
            | ((((x >> 104u128) & 0xff) as u8 as u128) << 104u128)
            | ((((x >> 112u128) & 0xff) as u8 as u128) << 112u128)
            | ((((x >> 120u128) & 0xff) as u8 as u128) << 120u128),
{
}

/// Reading the bytes of `x` gives `x` back.
pub proof fn lemma_le_u128_of_bytes(x: u128)
    ensures
        le_u128(u128_le_bytes(x)) == x,
{
    lemma_u128_value_of_bytes(x);
}

/// Writing the value that 16 bytes denote gives the bytes back.
pub proof fn lemma_bytes_of_le_u128(b: Seq<u8>)
    requires
        b.len() == 16,
    ensures
        u128_le_bytes(le_u128(b)) == b,
{
    lemma_u128_bytes_of_value(b[0], b[1], b[2], b[3], b[4], b[5], b[6], b[7], b[8], b[9], b[10], b[11], b[12], b[13], b[14], b[15], le_u128(b));
    assert(u128_le_bytes(le_u128(b)) =~= b);
}

} // verus!
