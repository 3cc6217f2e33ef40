//! Big-endian conversions between unsigned integers and byte sequences.

use vstd::prelude::*;

verus! {

/// The value of the first 4 bytes of `s` read as a big-endian unsigned
/// 32-bit integer.
pub open spec fn be_u32(s: Seq<u8>) -> int
    recommends
        s.len() >= 4,
{
    s[0] * 0x100_0000 + s[1] * 0x1_0000 + s[2] * 0x100 + s[3]
}

/// The value of the first 8 bytes of `s` read as a big-endian unsigned
/// 64-bit integer.
pub open spec fn be_u64(s: Seq<u8>) -> int
    recommends
        s.len() >= 8,
{
    s[0] * 0x100_0000_0000_0000 + s[1] * 0x1_0000_0000_0000 + s[2] * 0x100_0000_0000 + s[3]
        * 0x1_0000_0000 + s[4] * 0x100_0000 + s[5] * 0x1_0000 + s[6] * 0x100 + s[7]
}

/// The 4-byte big-endian representation of `x`.
pub open spec fn u32_be_bytes(x: u32) -> Seq<u8> {
    seq![
        (x / 0x100_0000) as u8,
        ((x / 0x1_0000) % 0x100) as u8,
        ((x / 0x100) % 0x100) as u8,
        (x % 0x100) as u8,
    ]
}

/// The 8-byte big-endian representation of `x`.
pub open spec fn u64_be_bytes(x: u64) -> Seq<u8> {
    seq![
        (x / 0x100_0000_0000_0000) as u8,
        ((x / 0x1_0000_0000_0000) % 0x100) as u8,
        ((x / 0x100_0000_0000) % 0x100) as u8,
        ((x / 0x1_0000_0000) % 0x100) as u8,
        ((x / 0x100_0000) % 0x100) as u8,
        ((x / 0x1_0000) % 0x100) as u8,
        ((x / 0x100) % 0x100) as u8,
        (x % 0x100) as u8,
    ]
}

/// Reading back the 4 bytes written for `x` yields `x`.
pub proof fn lemma_u32_be_round_trip(x: u32)
    ensures
        u32_be_bytes(x).len() == 4,
        be_u32(u32_be_bytes(x)) == x,
{
    assert(x / 0x100_0000 < 0x100) by (bit_vector);
    assert(x / 0x100_0000 * 0x100_0000 + x / 0x1_0000 % 0x100 * 0x1_0000 + x / 0x100 % 0x100
        * 0x100 + x % 0x100 == x) by (bit_vector);
}

/// Reading back the 8 bytes written for `x` yields `x`.
pub proof fn lemma_u64_be_round_trip(x: u64)
    ensures
        u64_be_bytes(x).len() == 8,
        be_u64(u64_be_bytes(x)) == x,
{
    assert(x / 0x100_0000_0000_0000 < 0x100) by (bit_vector);
    assert(x / 0x100_0000_0000_0000 * 0x100_0000_0000_0000 + x / 0x1_0000_0000_0000 % 0x100
        * 0x1_0000_0000_0000 + x / 0x100_0000_0000 % 0x100 * 0x100_0000_0000 + x / 0x1_0000_0000
        % 0x100 * 0x1_0000_0000 + x / 0x100_0000 % 0x100 * 0x100_0000 + x / 0x1_0000 % 0x100
        * 0x1_0000 + x / 0x100 % 0x100 * 0x100 + x % 0x100 == x) by (bit_vector);
}

/// The big-endian value of 4 bytes fits in a `u32`.
pub proof fn lemma_be_u32_bound(s: Seq<u8>)
    requires
        s.len() >= 4,
    ensures
        0 <= be_u32(s) < 0x1_0000_0000,
{
}

/// The big-endian value of 8 bytes fits in a `u64`.
pub proof fn lemma_be_u64_bound(s: Seq<u8>)
    requires
        s.len() >= 8,
    ensures
        0 <= be_u64(s) < 0x1_0000_0000_0000_0000,
{
}

/// Reads the 4 bytes at `pos` as a big-endian unsigned 32-bit integer.
pub fn read_be_u32(buf: &[u8], pos: usize) -> (r: u32)
    requires
        pos + 4 <= buf@.len(),
    ensures
        r == be_u32(buf@.subrange(pos as int, pos as int + 4)),
{
    let b0 = buf[pos];
    let b1 = buf[pos + 1];
    let b2 = buf[pos + 2];
    let b3 = buf[pos + 3];
    (b0 as u32) * 0x100_0000 + (b1 as u32) * 0x1_0000 + (b2 as u32) * 0x100 + (b3 as u32)
}

/// Reads the 8 bytes at `pos` as a big-endian unsigned 64-bit integer.
pub fn read_be_u64(buf: &[u8], pos: usize) -> (r: u64)
    requires
        pos + 8 <= buf@.len(),
    ensures
        r == be_u64(buf@.subrange(pos as int, pos as int + 8)),
{
    let b0 = buf[pos];
    let b1 = buf[pos + 1];
    let b2 = buf[pos + 2];
    let b3 = buf[pos + 3];
    let b4 = buf[pos + 4];
    let b5 = buf[pos + 5];
    let b6 = buf[pos + 6];
    let b7 = buf[pos + 7];
    (b0 as u64) * 0x100_0000_0000_0000 + (b1 as u64) * 0x1_0000_0000_0000 + (b2 as u64)
        * 0x100_0000_0000 + (b3 as u64) * 0x1_0000_0000 + (b4 as u64) * 0x100_0000 + (b5 as u64)
        * 0x1_0000 + (b6 as u64) * 0x100 + (b7 as u64)
}

/// Appends the 4-byte big-endian representation of `x` to `out`.
pub fn write_be_u32(out: &mut Vec<u8>, x: u32)
    ensures
        final(out)@ == old(out)@ + u32_be_bytes(x),
{
    out.push((x / 0x100_0000) as u8);
    out.push(((x / 0x1_0000) % 0x100) as u8);
    out.push(((x / 0x100) % 0x100) as u8);
    out.push((x % 0x100) as u8);
    proof {
        assert(x / 0x100_0000 < 0x100) by (bit_vector);
        assert(out@ =~= old(out)@ + u32_be_bytes(x));
    }
}

/// Appends the 8-byte big-endian representation of `x` to `out`.
pub fn write_be_u64(out: &mut Vec<u8>, x: u64)
    ensures
        final(out)@ == old(out)@ + u64_be_bytes(x),
{
    out.push((x / 0x100_0000_0000_0000) as u8);
    out.push(((x / 0x1_0000_0000_0000) % 0x100) as u8);
    out.push(((x / 0x100_0000_0000) % 0x100) as u8);
    out.push(((x / 0x1_0000_0000) % 0x100) as u8);
    out.push(((x / 0x100_0000) % 0x100) as u8);
    out.push(((x / 0x1_0000) % 0x100) as u8);
    out.push(((x / 0x100) % 0x100) as u8);
    out.push((x % 0x100) as u8);
    proof {
        assert(x / 0x100_0000_0000_0000 < 0x100) by (bit_vector);
        assert(out@ =~= old(out)@ + u64_be_bytes(x));
    }
}

} // verus!
