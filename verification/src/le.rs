//! Little-endian encodings of fixed-width unsigned integers.
use vstd::prelude::*;

verus! {

/// The two bytes of `x`, least significant first.
pub open spec fn le_bytes_u16(x: u16) -> Seq<u8> {
    seq![(x & 0xff) as u8, ((x >> 8u16) & 0xff) as u8]
}

/// The four bytes of `x`, least significant first.
pub open spec fn le_bytes_u32(x: u32) -> Seq<u8> {
    seq![
        (x & 0xff) as u8,
        ((x >> 8u32) & 0xff) as u8,
        ((x >> 16u32) & 0xff) as u8,
        ((x >> 24u32) & 0xff) as u8,
    ]
}

/// The eight bytes of `x`, least significant first.
pub open spec fn le_bytes_u64(x: u64) -> Seq<u8> {
    seq![
        (x & 0xff) as u8,
        ((x >> 8u64) & 0xff) as u8,
        ((x >> 16u64) & 0xff) as u8,
        ((x >> 24u64) & 0xff) as u8,
        ((x >> 32u64) & 0xff) as u8,
        ((x >> 40u64) & 0xff) as u8,
        ((x >> 48u64) & 0xff) as u8,
        ((x >> 56u64) & 0xff) as u8,
    ]
}

/// The `u16` whose little-endian bytes are `b[0..2]`.
pub open spec fn u16_from_le(b: Seq<u8>) -> u16
    recommends
        b.len() >= 2,
{
    (b[0] as u16) | ((b[1] as u16) << 8u16)
}

/// The `u32` whose little-endian bytes are `b[0..4]`.
pub open spec fn u32_from_le(b: Seq<u8>) -> u32
    recommends
        b.len() >= 4,
{
    (b[0] as u32) | ((b[1] as u32) << 8u32) | ((b[2] as u32) << 16u32) | ((b[3] as u32) << 24u32)
}

/// The `u64` whose little-endian bytes are `b[0..8]`.
pub open spec fn u64_from_le(b: Seq<u8>) -> u64
    recommends
        b.len() >= 8,
{
    (b[0] as u64) | ((b[1] as u64) << 8u64) | ((b[2] as u64) << 16u64) | ((b[3] as u64) << 24u64)
        | ((b[4] as u64) << 32u64) | ((b[5] as u64) << 40u64) | ((b[6] as u64) << 48u64)
        | ((b[7] as u64) << 56u64)
}

/// Decoding the encoding of a `u16` gives it back, and decoding is injective on two bytes.
pub proof fn lemma_u16_le_roundtrip(x: u16, b: Seq<u8>)
    ensures
        le_bytes_u16(x).len() == 2,
        u16_from_le(le_bytes_u16(x)) == x,
        b.len() == 2 ==> le_bytes_u16(u16_from_le(b)) == b,
{
    let s = le_bytes_u16(x);
    let (s0, s1) = (s[0], s[1]);
    assert(s0 == (x & 0xff) as u8 && s1 == ((x >> 8u16) & 0xff) as u8 ==> (s0 as u16) | ((s1 as u16) << 8u16) == x) by (bit_vector);
    if b.len() == 2 {
        let (b0, b1) = (b[0], b[1]);
        let y = u16_from_le(b);
        assert(y == (b0 as u16) | ((b1 as u16) << 8u16) ==> b0 == (y & 0xff) as u8 && b1 == ((y >> 8u16) & 0xff) as u8) by (bit_vector);
        assert(le_bytes_u16(y) =~= b);
    }
}

/// Decoding the encoding of a `u32` gives it back, and decoding is injective on four bytes.
pub proof fn lemma_u32_le_roundtrip(x: u32, b: Seq<u8>)
    ensures
        le_bytes_u32(x).len() == 4,
        u32_from_le(le_bytes_u32(x)) == x,
        b.len() == 4 ==> le_bytes_u32(u32_from_le(b)) == b,
{
    let s = le_bytes_u32(x);
    let (s0, s1, s2, s3) = (s[0], s[1], s[2], s[3]);
    assert(s0 == (x & 0xff) as u8 && s1 == ((x >> 8u32) & 0xff) as u8 && s2 == ((x >> 16u32) & 0xff) as u8
        && s3 == ((x >> 24u32) & 0xff) as u8 ==> (s0 as u32) | ((s1 as u32) << 8u32) | ((s2 as u32) << 16u32)
        | ((s3 as u32) << 24u32) == x) by (bit_vector);
    if b.len() == 4 {
        let (b0, b1, b2, b3) = (b[0], b[1], b[2], b[3]);
        let y = u32_from_le(b);
        assert(y == (b0 as u32) | ((b1 as u32) << 8u32) | ((b2 as u32) << 16u32) | ((b3 as u32) << 24u32)
            ==> b0 == (y & 0xff) as u8 && b1 == ((y >> 8u32) & 0xff) as u8 && b2 == ((y >> 16u32) & 0xff) as u8
            && b3 == ((y >> 24u32) & 0xff) as u8) by (bit_vector);
        assert(le_bytes_u32(y) =~= b);
    }
}

/// Decoding the encoding of a `u64` gives it back, and decoding is injective on eight bytes.
pub proof fn lemma_u64_le_roundtrip(x: u64, b: Seq<u8>)
    ensures
        le_bytes_u64(x).len() == 8,
        u64_from_le(le_bytes_u64(x)) == x,
        b.len() == 8 ==> le_bytes_u64(u64_from_le(b)) == b,
{
    let s = le_bytes_u64(x);
    let (s0, s1, s2, s3, s4, s5, s6, s7) = (s[0], s[1], s[2], s[3], s[4], s[5], s[6], s[7]);
    assert(s0 == (x & 0xff) as u8 && s1 == ((x >> 8u64) & 0xff) as u8 && s2 == ((x >> 16u64) & 0xff) as u8
        && s3 == ((x >> 24u64) & 0xff) as u8 && s4 == ((x >> 32u64) & 0xff) as u8
        && s5 == ((x >> 40u64) & 0xff) as u8 && s6 == ((x >> 48u64) & 0xff) as u8
        && s7 == ((x >> 56u64) & 0xff) as u8 ==> (s0 as u64) | ((s1 as u64) << 8u64) | ((s2 as u64) << 16u64)
        | ((s3 as u64) << 24u64) | ((s4 as u64) << 32u64) | ((s5 as u64) << 40u64) | ((s6 as u64) << 48u64)
        | ((s7 as u64) << 56u64) == x) by (bit_vector);
    if b.len() == 8 {
        let (b0, b1, b2, b3, b4, b5, b6, b7) = (b[0], b[1], b[2], b[3], b[4], b[5], b[6], b[7]);
        let y = u64_from_le(b);
        assert(y == (b0 as u64) | ((b1 as u64) << 8u64) | ((b2 as u64) << 16u64) | ((b3 as u64) << 24u64)
            | ((b4 as u64) << 32u64) | ((b5 as u64) << 40u64) | ((b6 as u64) << 48u64) | ((b7 as u64) << 56u64)
            ==> b0 == (y & 0xff) as u8 && b1 == ((y >> 8u64) & 0xff) as u8 && b2 == ((y >> 16u64) & 0xff) as u8
            && b3 == ((y >> 24u64) & 0xff) as u8 && b4 == ((y >> 32u64) & 0xff) as u8
            && b5 == ((y >> 40u64) & 0xff) as u8 && b6 == ((y >> 48u64) & 0xff) as u8
            && b7 == ((y >> 56u64) & 0xff) as u8) by (bit_vector);
        assert(le_bytes_u64(y) =~= b);
    }
}

/// The bytes of an integer are its base-256 digits, least significant first.
pub proof fn lemma_le_bytes_are_base_256_digits(x16: u16, x32: u32, x64: u64)
    ensures
        le_bytes_u16(x16).len() == 2,
        x16 == le_bytes_u16(x16)[0] + 0x100 * le_bytes_u16(x16)[1],
        le_bytes_u32(x32).len() == 4,
        x32 == le_bytes_u32(x32)[0] + 0x100 * le_bytes_u32(x32)[1] + 0x1_0000 * le_bytes_u32(x32)[2]
            + 0x100_0000 * le_bytes_u32(x32)[3],
        le_bytes_u64(x64).len() == 8,
        x64 == le_bytes_u64(x64)[0] + 0x100 * le_bytes_u64(x64)[1] + 0x1_0000 * le_bytes_u64(x64)[2]
            + 0x100_0000 * le_bytes_u64(x64)[3] + 0x1_0000_0000 * le_bytes_u64(x64)[4]
            + 0x100_0000_0000 * le_bytes_u64(x64)[5] + 0x1_0000_0000_0000 * le_bytes_u64(x64)[6]
            + 0x100_0000_0000_0000 * le_bytes_u64(x64)[7],
{
    let a = le_bytes_u16(x16);
    let (a0, a1) = (a[0], a[1]);
    assert(a0 == (x16 & 0xff) as u8 && a1 == ((x16 >> 8u16) & 0xff) as u8 ==> x16 == a0 + 0x100 * a1)
        by (bit_vector);
    let b = le_bytes_u32(x32);
    let (b0, b1, b2, b3) = (b[0], b[1], b[2], b[3]);
    assert(b0 == (x32 & 0xff) as u8 && b1 == ((x32 >> 8u32) & 0xff) as u8 && b2 == ((x32 >> 16u32) & 0xff) as u8
        && b3 == ((x32 >> 24u32) & 0xff) as u8 ==> x32 == b0 + 0x100 * b1 + 0x1_0000 * b2 + 0x100_0000 * b3)
        by (bit_vector);
    let c = le_bytes_u64(x64);
    let (c0, c1, c2, c3, c4, c5, c6, c7) = (c[0], c[1], c[2], c[3], c[4], c[5], c[6], c[7]);
    assert(c0 == (x64 & 0xff) as u8 && c1 == ((x64 >> 8u64) & 0xff) as u8 && c2 == ((x64 >> 16u64) & 0xff) as u8
        && c3 == ((x64 >> 24u64) & 0xff) as u8 && c4 == ((x64 >> 32u64) & 0xff) as u8
        && c5 == ((x64 >> 40u64) & 0xff) as u8 && c6 == ((x64 >> 48u64) & 0xff) as u8
        && c7 == ((x64 >> 56u64) & 0xff) as u8 ==> x64 == c0 + 0x100 * c1 + 0x1_0000 * c2 + 0x100_0000 * c3
        + 0x1_0000_0000 * c4 + 0x100_0000_0000 * c5 + 0x1_0000_0000_0000 * c6 + 0x100_0000_0000_0000 * c7)
        by (bit_vector);
}

/// Reading bytes as a little-endian integer weighs each byte by 256 to the power of its place.
pub proof fn lemma_le_values_are_base_256(b: Seq<u8>)
    ensures
        b.len() >= 2 ==> u16_from_le(b) == b[0] + 0x100 * b[1],
        b.len() >= 4 ==> u32_from_le(b) == b[0] + 0x100 * b[1] + 0x1_0000 * b[2] + 0x100_0000 * b[3],
        b.len() >= 8 ==> u64_from_le(b) == b[0] + 0x100 * b[1] + 0x1_0000 * b[2] + 0x100_0000 * b[3]
            + 0x1_0000_0000 * b[4] + 0x100_0000_0000 * b[5] + 0x1_0000_0000_0000 * b[6]
            + 0x100_0000_0000_0000 * b[7],
{
    if b.len() >= 2 {
        let (b0, b1) = (b[0], b[1]);
        assert((b0 as u16) | ((b1 as u16) << 8u16) == b0 + 0x100 * b1) by (bit_vector);
    }
    if b.len() >= 4 {
        let (b0, b1, b2, b3) = (b[0], b[1], b[2], b[3]);
        assert((b0 as u32) | ((b1 as u32) << 8u32) | ((b2 as u32) << 16u32) | ((b3 as u32) << 24u32) == b0
            + 0x100 * b1 + 0x1_0000 * b2 + 0x100_0000 * b3) by (bit_vector);
    }
    if b.len() >= 8 {
        let (b0, b1, b2, b3, b4, b5, b6, b7) = (b[0], b[1], b[2], b[3], b[4], b[5], b[6], b[7]);
        assert((b0 as u64) | ((b1 as u64) << 8u64) | ((b2 as u64) << 16u64) | ((b3 as u64) << 24u64) | ((
        b4 as u64) << 32u64) | ((b5 as u64) << 40u64) | ((b6 as u64) << 48u64) | ((b7 as u64) << 56u64) == b0
            + 0x100 * b1 + 0x1_0000 * b2 + 0x100_0000 * b3 + 0x1_0000_0000 * b4 + 0x100_0000_0000 * b5
            + 0x1_0000_0000_0000 * b6 + 0x100_0000_0000_0000 * b7) by (bit_vector);
    }
}

/// Writes the little-endian bytes of `x` into `buf` at `pos`, leaving the rest as it was.
pub fn put_u16_le<const N: usize>(buf: &mut [u8; N], pos: usize, x: u16)
    requires
        pos + 2 <= N,
    ensures
        final(buf)@ == old(buf)@.take(pos as int) + le_bytes_u16(x) + old(buf)@.skip(pos + 2),
{
    buf[pos] = (x & 0xff) as u8;
    buf[pos + 1] = ((x >> 8u16) & 0xff) as u8;
    assert(buf@ =~= old(buf)@.take(pos as int) + le_bytes_u16(x) + old(buf)@.skip(pos + 2));
}

/// Writes the little-endian bytes of `x` into `buf` at `pos`, leaving the rest as it was.
pub fn put_u32_le<const N: usize>(buf: &mut [u8; N], pos: usize, x: u32)
    requires
        pos + 4 <= N,
    ensures
        final(buf)@ == old(buf)@.take(pos as int) + le_bytes_u32(x) + old(buf)@.skip(pos + 4),
{
    buf[pos] = (x & 0xff) as u8;
    buf[pos + 1] = ((x >> 8u32) & 0xff) as u8;
    buf[pos + 2] = ((x >> 16u32) & 0xff) as u8;
    buf[pos + 3] = ((x >> 24u32) & 0xff) as u8;
    assert(buf@ =~= old(buf)@.take(pos as int) + le_bytes_u32(x) + old(buf)@.skip(pos + 4));
}

/// Writes the little-endian bytes of `x` into `buf` at `pos`, leaving the rest as it was.
pub fn put_u64_le<const N: usize>(buf: &mut [u8; N], pos: usize, x: u64)
    requires
        pos + 8 <= N,
    ensures
        final(buf)@ == old(buf)@.take(pos as int) + le_bytes_u64(x) + old(buf)@.skip(pos + 8),
{
    buf[pos] = (x & 0xff) as u8;
    buf[pos + 1] = ((x >> 8u64) & 0xff) as u8;
    buf[pos + 2] = ((x >> 16u64) & 0xff) as u8;
    buf[pos + 3] = ((x >> 24u64) & 0xff) as u8;
    buf[pos + 4] = ((x >> 32u64) & 0xff) as u8;
    buf[pos + 5] = ((x >> 40u64) & 0xff) as u8;
    buf[pos + 6] = ((x >> 48u64) & 0xff) as u8;
    buf[pos + 7] = ((x >> 56u64) & 0xff) as u8;
    assert(buf@ =~= old(buf)@.take(pos as int) + le_bytes_u64(x) + old(buf)@.skip(pos + 8));
}

/// Reads the `u16` whose little-endian bytes start at `pos`.
pub fn read_u16_le(s: &[u8], pos: usize) -> (r: u16)
    requires
        pos + 2 <= s@.len(),
    ensures
        r == u16_from_le(s@.subrange(pos as int, pos + 2)),
{
    (s[pos] as u16) | ((s[pos + 1] as u16) << 8u16)
}

/// Reads the `u32` whose little-endian bytes start at `pos`.
pub fn read_u32_le(s: &[u8], pos: usize) -> (r: u32)
    requires
        pos + 4 <= s@.len(),
    ensures
        r == u32_from_le(s@.subrange(pos as int, pos + 4)),
{
    (s[pos] as u32) | ((s[pos + 1] as u32) << 8u32) | ((s[pos + 2] as u32) << 16u32) | ((s[pos + 3] as u32)
        << 24u32)
}

/// Reads the `u64` whose little-endian bytes start at `pos`.
pub fn read_u64_le(s: &[u8], pos: usize) -> (r: u64)
    requires
        pos + 8 <= s@.len(),
    ensures
        r == u64_from_le(s@.subrange(pos as int, pos + 8)),
{
    (s[pos] as u64) | ((s[pos + 1] as u64) << 8u64) | ((s[pos + 2] as u64) << 16u64) | ((s[pos + 3] as u64)
        << 24u64) | ((s[pos + 4] as u64) << 32u64) | ((s[pos + 5] as u64) << 40u64) | ((s[pos + 6] as u64)
        << 48u64) | ((s[pos + 7] as u64) << 56u64)
}

} // verus!
