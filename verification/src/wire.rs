//! Little-endian integers on the wire.

use vstd::prelude::*;

verus! {

/// The eight little-endian bytes of `x`.
pub open spec fn u64_le(x: u64) -> Seq<u8> {
    seq![
        (x % 0x100) as u8,
        (x / 0x100 % 0x100) as u8,
        (x / 0x1_0000 % 0x100) as u8,
        (x / 0x100_0000 % 0x100) as u8,
        (x / 0x1_0000_0000 % 0x100) as u8,
        (x / 0x100_0000_0000 % 0x100) as u8,
        (x / 0x1_0000_0000_0000 % 0x100) as u8,
        (x / 0x100_0000_0000_0000 % 0x100) as u8,
    ]
}

/// The integer whose little-endian bytes are the first eight of `b`.
pub open spec fn u64_from_le(b: Seq<u8>) -> u64
    recommends
        b.len() >= 8,
{
    (b[0] as int + b[1] as int * 0x100 + b[2] as int * 0x1_0000 + b[3] as int * 0x100_0000
        + b[4] as int * 0x1_0000_0000 + b[5] as int * 0x100_0000_0000 + b[6] as int
        * 0x1_0000_0000_0000 + b[7] as int * 0x100_0000_0000_0000) as u64
}

/// The two little-endian bytes of `x`.
pub open spec fn u16_le(x: u16) -> Seq<u8> {
    seq![(x % 0x100) as u8, (x / 0x100) as u8]
}

/// The integer whose little-endian bytes are the first two of `b`.
pub open spec fn u16_from_le(b: Seq<u8>) -> u16
    recommends
        b.len() >= 2,
{
    (b[0] as int + b[1] as int * 0x100) as u16
}

/// Decoding the encoding of a 64-bit integer gives the integer back.
pub proof fn lemma_u64_le_roundtrip(x: u64)
    ensures
        u64_le(x).len() == 8,
        u64_from_le(u64_le(x)) == x,
{
    assert(x == (x % 0x100) + (x / 0x100 % 0x100) * 0x100 + (x / 0x1_0000 % 0x100) * 0x1_0000 + (x
        / 0x100_0000 % 0x100) * 0x100_0000 + (x / 0x1_0000_0000 % 0x100) * 0x1_0000_0000 + (x
        / 0x100_0000_0000 % 0x100) * 0x100_0000_0000 + (x / 0x1_0000_0000_0000 % 0x100)
        * 0x1_0000_0000_0000 + (x / 0x100_0000_0000_0000 % 0x100) * 0x100_0000_0000_0000)
        by (bit_vector);
}

/// Encoding the decoding of eight bytes gives the bytes back.
pub proof fn lemma_u64_bytes_roundtrip(b: Seq<u8>)
    requires
        b.len() == 8,
    ensures
        u64_le(u64_from_le(b)) == b,
{
    let b0 = b[0];
    let b1 = b[1];
    let b2 = b[2];
    let b3 = b[3];
    let b4 = b[4];
    let b5 = b[5];
    let b6 = b[6];
    let b7 = b[7];
    let x = u64_from_le(b);
    assert(x == b0 as int + b1 as int * 0x100 + b2 as int * 0x1_0000 + b3 as int * 0x100_0000
        + b4 as int * 0x1_0000_0000 + b5 as int * 0x100_0000_0000 + b6 as int
        * 0x1_0000_0000_0000 + b7 as int * 0x100_0000_0000_0000);
    assert(x % 0x100 == b0 && x / 0x100 % 0x100 == b1 && x / 0x1_0000 % 0x100 == b2 && x
        / 0x100_0000 % 0x100 == b3 && x / 0x1_0000_0000 % 0x100 == b4 && x / 0x100_0000_0000
        % 0x100 == b5 && x / 0x1_0000_0000_0000 % 0x100 == b6 && x / 0x100_0000_0000_0000 % 0x100
        == b7) by (bit_vector)
        requires
            x == b0 as int + b1 as int * 0x100 + b2 as int * 0x1_0000 + b3 as int * 0x100_0000
                + b4 as int * 0x1_0000_0000 + b5 as int * 0x100_0000_0000 + b6 as int
                * 0x1_0000_0000_0000 + b7 as int * 0x100_0000_0000_0000,
    ;
    assert(u64_le(x) =~= b);
}

/// Decoding the encoding of a 16-bit integer gives the integer back.
pub proof fn lemma_u16_le_roundtrip(x: u16)
    ensures
        u16_le(x).len() == 2,
        u16_from_le(u16_le(x)) == x,
{
}

/// `x` without its lowest `k` bytes.
spec fn without_low_bytes(x: u64, k: int) -> u64 {
    if k == 0 {
        x
    } else if k == 1 {
        x / 0x100
    } else if k == 2 {
        x / 0x1_0000
    } else if k == 3 {
        x / 0x100_0000
    } else if k == 4 {
        x / 0x1_0000_0000
    } else if k == 5 {
        x / 0x100_0000_0000
    } else if k == 6 {
        x / 0x1_0000_0000_0000
    } else if k == 7 {
        x / 0x100_0000_0000_0000
    } else {
        0
    }
}

/// Writes the little-endian bytes of `value` into `buf` at `offset`.
pub fn put_u64_le(buf: &mut [u8], offset: usize, value: u64)
    requires
        offset + 8 <= old(buf)@.len(),
    ensures
        final(buf)@.len() == old(buf)@.len(),
        final(buf)@.subrange(offset as int, offset + 8) == u64_le(value),
        forall|i: int|
            0 <= i < old(buf)@.len() && !(offset <= i < offset + 8) ==> final(buf)@[i] == old(
                buf,
            )@[i],
{
    let n: usize = buf.len();
    let mut rest: u64 = value;
    let mut k: usize = 0;
    while k < 8
        invariant
            k <= 8,
            n == buf@.len(),
            offset + 8 <= buf@.len(),
            buf@.len() == old(buf)@.len(),
            rest == without_low_bytes(value, k as int),
            forall|i: int| 0 <= i < k ==> buf@[offset + i] == u64_le(value)[i],
            forall|i: int|
                0 <= i < buf@.len() && !(offset <= i < offset + 8) ==> buf@[i] == old(buf)@[i],
        decreases 8 - k,
    {
        buf[offset + k] = (rest % 0x100) as u8;
        rest = rest / 0x100;
        k += 1;
    }
    assert(buf@.subrange(offset as int, offset + 8) =~= u64_le(value));
}

/// Reads the little-endian 64-bit integer stored in `data` at `offset`.
pub fn get_u64_le(data: &[u8], offset: usize) -> (value: u64)
    requires
        offset + 8 <= data@.len(),
    ensures
        value == u64_from_le(data@.subrange(offset as int, offset + 8)),
{
    let b0: u64 = data[offset] as u64;
    let b1: u64 = data[offset + 1] as u64;
    let b2: u64 = data[offset + 2] as u64;
    let b3: u64 = data[offset + 3] as u64;
    let b4: u64 = data[offset + 4] as u64;
    let b5: u64 = data[offset + 5] as u64;
    let b6: u64 = data[offset + 6] as u64;
    let b7: u64 = data[offset + 7] as u64;
    b0 + b1 * 0x100 + b2 * 0x1_0000 + b3 * 0x100_0000 + b4 * 0x1_0000_0000 + b5 * 0x100_0000_0000
        + b6 * 0x1_0000_0000_0000 + b7 * 0x100_0000_0000_0000
}

/// Reads the little-endian 16-bit integer stored in `data` at `offset`.
pub fn get_u16_le(data: &[u8], offset: usize) -> (value: u16)
    requires
        offset + 2 <= data@.len(),
    ensures
        value == u16_from_le(data@.subrange(offset as int, offset + 2)),
{
    let b0: u16 = data[offset] as u16;
    let b1: u16 = data[offset + 1] as u16;
    b0 + b1 * 0x100
}

} // verus!
