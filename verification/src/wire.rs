//! Byte-level helpers shared by the packet codecs: big-endian integer
//! encoding, buffer copying, and printable-ASCII checks over byte slices.

use vstd::prelude::*;

verus! {

/// Big-endian encoding of a `u16` as two bytes.
pub open spec fn be16(x: u16) -> Seq<u8> {
    seq![(x >> 8) as u8, x as u8]
}

/// Big-endian encoding of a `u32` as four bytes.
pub open spec fn be32(x: u32) -> Seq<u8> {
    seq![(x >> 24) as u8, (x >> 16) as u8, (x >> 8) as u8, x as u8]
}

/// The `u16` read back from two big-endian bytes.
pub open spec fn u16_of_be(b0: u8, b1: u8) -> u16 {
    (((b0 as u16) << 8) | (b1 as u16)) as u16
}

/// The `u32` read back from four big-endian bytes.
pub open spec fn u32_of_be(b0: u8, b1: u8, b2: u8, b3: u8) -> u32 {
    (((b0 as u32) << 24) | ((b1 as u32) << 16) | ((b2 as u32) << 8) | (b3 as u32)) as u32
}

/// Decoding inverts encoding for 16-bit values.
pub proof fn lemma_be16_round_trip(x: u16)
    ensures
        u16_of_be(be16(x)[0], be16(x)[1]) == x,
{
    assert((((((x >> 8) as u8) as u16) << 8) | ((x as u8) as u16)) == x) by (bit_vector);
}

/// Decoding inverts encoding for 32-bit values.
pub proof fn lemma_be32_round_trip(x: u32)
    ensures
        u32_of_be(be32(x)[0], be32(x)[1], be32(x)[2], be32(x)[3]) == x,
{
    assert(((((x >> 24) as u8) as u32) << 24) | ((((x >> 16) as u8) as u32) << 16) | ((((x
        >> 8) as u8) as u32) << 8) | ((x as u8) as u32) == x) by (bit_vector);
}

/// Appends the two big-endian bytes of `x` to `out`.
pub fn push_u16_be(out: &mut Vec<u8>, x: u16)
    ensures
        final(out)@ == old(out)@ + be16(x),
{
    out.push((x >> 8) as u8);
    out.push(x as u8);
    assert(out@ =~= old(out)@ + be16(x));
}

/// Appends the four big-endian bytes of `x` to `out`.
pub fn push_u32_be(out: &mut Vec<u8>, x: u32)
    ensures
        final(out)@ == old(out)@ + be32(x),
{
    out.push((x >> 24) as u8);
    out.push((x >> 16) as u8);
    out.push((x >> 8) as u8);
    out.push(x as u8);
    assert(out@ =~= old(out)@ + be32(x));
}

/// Reads the big-endian `u16` stored at `offset`.
pub fn read_u16_be(buffer: &Vec<u8>, offset: usize) -> (r: u16)
    requires
        offset + 2 <= buffer@.len(),
    ensures
        r == u16_of_be(buffer@[offset as int], buffer@[offset + 1]),
{
    // binding the length as a machine word keeps the index sums in range
    let _len: usize = buffer.len();
    ((buffer[offset] as u16) << 8) | (buffer[offset + 1] as u16)
}

/// Reads the big-endian `u32` stored at `offset`.
pub fn read_u32_be(buffer: &Vec<u8>, offset: usize) -> (r: u32)
    requires
        offset + 4 <= buffer@.len(),
    ensures
        r == u32_of_be(
            buffer@[offset as int],
            buffer@[offset + 1],
            buffer@[offset + 2],
            buffer@[offset + 3],
        ),
{
    // binding the length as a machine word keeps the index sums in range
    let _len: usize = buffer.len();
    ((buffer[offset] as u32) << 24) | ((buffer[offset + 1] as u32) << 16) | ((buffer[offset
        + 2] as u32) << 8) | (buffer[offset + 3] as u32)
}

/// Appends all bytes of `src` to `out`.
pub fn push_bytes(out: &mut Vec<u8>, src: &Vec<u8>)
    ensures
        final(out)@ == old(out)@ + src@,
{
    let mut i: usize = 0;
    while i < src.len()
        invariant
            i <= src@.len(),
            out@ == old(out)@ + src@.take(i as int),
        decreases src@.len() - i,
    {
        out.push(src[i]);
        i += 1;
        assert(out@ =~= old(out)@ + src@.take(i as int));
    }
    assert(out@ =~= old(out)@ + src@);
}

/// The bytes of `buffer` from `start` (inclusive) to `end` (exclusive), as a new vector.
pub fn subvec(buffer: &Vec<u8>, start: usize, end: usize) -> (r: Vec<u8>)
    requires
        start <= end <= buffer@.len(),
    ensures
        r@ == buffer@.subrange(start as int, end as int),
{
    let mut out: Vec<u8> = Vec::new();
    let mut i: usize = start;
    while i < end
        invariant
            start <= i <= end <= buffer@.len(),
            out@ == buffer@.subrange(start as int, i as int),
        decreases end - i,
    {
        out.push(buffer[i]);
        i += 1;
        assert(out@ =~= buffer@.subrange(start as int, i as int));
    }
    out
}

/// Writes `bytes` over the front of `buffer`, leaving the bytes after them
/// unchanged.
pub fn overwrite_prefix(buffer: &mut Vec<u8>, bytes: &Vec<u8>)
    requires
        bytes@.len() <= old(buffer)@.len(),
    ensures
        final(buffer)@ == bytes@ + old(buffer)@.skip(bytes@.len() as int),
        final(buffer)@.len() == old(buffer)@.len(),
{
    let n: usize = bytes.len();
    let mut i: usize = 0;
    while i < n
        invariant
            n == bytes@.len(),
            i <= n,
            n <= buffer@.len(),
            buffer@.len() == old(buffer)@.len(),
            buffer@ == bytes@.take(i as int) + old(buffer)@.skip(i as int),
        decreases n - i,
    {
        buffer[i] = bytes[i];
        i += 1;
        assert(buffer@ =~= bytes@.take(i as int) + old(buffer)@.skip(i as int));
    }
    assert(buffer@ =~= bytes@ + old(buffer)@.skip(bytes@.len() as int));
}

/// Every byte of `s` is printable ASCII.
pub open spec fn bytes_are_printable_ascii(s: Seq<u8>) -> bool {
    forall|i: int| 0 <= i < s.len() ==> crate::byte_is_printable_ascii(#[trigger] s[i])
}

} // verus!
