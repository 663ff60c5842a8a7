//! The two frames that cross the strategy boundary.
//!
//! Quote frame, 1049 bytes, little-endian:
//!
//! | offset | size | field        |
//! |--------|------|--------------|
//! | 0      | 1    | side (0 buys X with Y, 1 sells X for Y) |
//! | 1      | 8    | input amount |
//! | 9      | 8    | reserve X    |
//! | 17     | 8    | reserve Y    |
//! | 25     | 1024 | storage      |
//!
//! After-trade frame, 1058 bytes, little-endian:
//!
//! | offset | size | field             |
//! |--------|------|-------------------|
//! | 0      | 1    | tag, always 2     |
//! | 1      | 1    | side              |
//! | 2      | 8    | input amount      |
//! | 10     | 8    | output amount     |
//! | 18     | 8    | reserve X after   |
//! | 26     | 8    | reserve Y after   |
//! | 34     | 1024 | storage           |

use crate::wire::{get_u64_le, put_u64_le, u64_from_le, u64_le, lemma_u64_le_roundtrip};
use vstd::prelude::*;

verus! {

/// Bytes of a quote frame before the storage.
pub const INSTRUCTION_SIZE: usize = 25;

/// Bytes of per-strategy storage.
pub const STORAGE_SIZE: usize = 1024;

/// Bytes of a whole quote frame.
pub const SWAP_INSTRUCTION_SIZE: usize = 1049;

/// Bytes of a whole after-trade frame.
pub const AFTER_SWAP_SIZE: usize = 1058;

/// Tag byte that opens an after-trade frame.
pub const AFTER_SWAP_TAG: u8 = 2;

/// The 25 header bytes of a quote frame.
pub open spec fn quote_header(side: u8, input_amount: u64, reserve_x: u64, reserve_y: u64) -> Seq<
    u8,
> {
    seq![side] + u64_le(input_amount) + u64_le(reserve_x) + u64_le(reserve_y)
}

/// The 34 header bytes of an after-trade frame.
pub open spec fn after_swap_header(
    side: u8,
    input_amount: u64,
    output_amount: u64,
    reserve_x: u64,
    reserve_y: u64,
) -> Seq<u8> {
    seq![AFTER_SWAP_TAG, side] + u64_le(input_amount) + u64_le(output_amount) + u64_le(reserve_x)
        + u64_le(reserve_y)
}

/// `storage` cut or zero-filled to exactly 1024 bytes.
pub open spec fn padded_storage(storage: Seq<u8>) -> Seq<u8> {
    Seq::new(
        STORAGE_SIZE as nat,
        |i: int|
            if i < storage.len() {
                storage[i]
            } else {
                0u8
            },
    )
}

/// The quote frame for the given fields.
pub open spec fn quote_frame(
    side: u8,
    input_amount: u64,
    reserve_x: u64,
    reserve_y: u64,
    storage: Seq<u8>,
) -> Seq<u8> {
    quote_header(side, input_amount, reserve_x, reserve_y) + padded_storage(storage)
}

/// The after-trade frame for the given fields.
pub open spec fn after_swap_frame(
    side: u8,
    input_amount: u64,
    output_amount: u64,
    reserve_x: u64,
    reserve_y: u64,
    storage: Seq<u8>,
) -> Seq<u8> {
    after_swap_header(side, input_amount, output_amount, reserve_x, reserve_y) + padded_storage(
        storage,
    )
}

/// The side byte of a quote frame.
pub open spec fn frame_side(data: Seq<u8>) -> u8 {
    data[0]
}

/// The input amount of a quote frame.
pub open spec fn frame_input_amount(data: Seq<u8>) -> u64 {
    u64_from_le(data.subrange(1, 9))
}

/// The X reserve of a quote frame.
pub open spec fn frame_reserve_x(data: Seq<u8>) -> u64 {
    u64_from_le(data.subrange(9, 17))
}

/// The Y reserve of a quote frame.
pub open spec fn frame_reserve_y(data: Seq<u8>) -> u64 {
    u64_from_le(data.subrange(17, 25))
}

/// The storage bytes that follow the header of a quote frame.
pub open spec fn frame_storage(data: Seq<u8>) -> Seq<u8> {
    data.skip(INSTRUCTION_SIZE as int)
}

/// Builds the 25-byte header of a quote frame.
pub fn encode_instruction(side: u8, input_amount: u64, reserve_x: u64, reserve_y: u64) -> (data:
    [u8; 25])
    ensures
        data@ == quote_header(side, input_amount, reserve_x, reserve_y),
{
    let mut data = [0u8; 25];
    data[0] = side;
    put_u64_le(&mut data, 1, input_amount);
    put_u64_le(&mut data, 9, reserve_x);
    put_u64_le(&mut data, 17, reserve_y);
    assert(data@ =~= quote_header(side, input_amount, reserve_x, reserve_y));
    data
}

/// Reads the four header fields of a quote frame; bytes after the first 25
/// are not looked at.
pub fn decode_instruction(data: &[u8]) -> (fields: (u8, u64, u64, u64))
    requires
        data@.len() >= INSTRUCTION_SIZE,
    ensures
        fields.0 == frame_side(data@),
        fields.1 == frame_input_amount(data@),
        fields.2 == frame_reserve_x(data@),
        fields.3 == frame_reserve_y(data@),
{
    let side: u8 = data[0];
    let input_amount: u64 = get_u64_le(data, 1);
    let reserve_x: u64 = get_u64_le(data, 9);
    let reserve_y: u64 = get_u64_le(data, 17);
    (side, input_amount, reserve_x, reserve_y)
}

/// Copies the first 1024 bytes of `storage` into `data` at `offset`; the
/// bytes of the window that `storage` does not reach are left as they were.
pub(crate) fn put_storage(data: &mut [u8], offset: usize, storage: &[u8])
    requires
        offset + STORAGE_SIZE <= old(data)@.len(),
    ensures
        final(data)@.len() == old(data)@.len(),
        forall|i: int|
            0 <= i < STORAGE_SIZE && i < storage@.len() ==> final(data)@[offset + i] == storage@[i],
        forall|i: int|
            0 <= i < old(data)@.len() && !(offset <= i < offset + STORAGE_SIZE && i - offset
                < storage@.len()) ==> final(data)@[i] == old(data)@[i],
{
    let n: usize = data.len();
    let copy_len: usize = if storage.len() < STORAGE_SIZE {
        storage.len()
    } else {
        STORAGE_SIZE
    };
    let mut k: usize = 0;
    while k < copy_len
        invariant
            k <= copy_len,
            copy_len <= STORAGE_SIZE,
            copy_len <= storage@.len(),
            copy_len == STORAGE_SIZE || copy_len == storage@.len(),
            n == data@.len(),
            data@.len() == old(data)@.len(),
            offset + STORAGE_SIZE <= data@.len(),
            forall|i: int| 0 <= i < k ==> data@[offset + i] == storage@[i],
            forall|i: int|
                0 <= i < data@.len() && !(offset <= i < offset + k) ==> data@[i] == old(data)@[i],
        decreases copy_len - k,
    {
        data[offset + k] = storage[k];
        k += 1;
    }
}

/// Builds a whole quote frame: the header, then `storage` cut or zero-filled
/// to 1024 bytes.
pub fn encode_swap_instruction(
    side: u8,
    input_amount: u64,
    reserve_x: u64,
    reserve_y: u64,
    storage: &[u8],
) -> (data: Vec<u8>)
    ensures
        data@ == quote_frame(side, input_amount, reserve_x, reserve_y, storage@),
        data@.len() == SWAP_INSTRUCTION_SIZE,
{
    let mut data: Vec<u8> = vec![0u8; SWAP_INSTRUCTION_SIZE];
    let buf = data.as_mut_slice();
    buf[0] = side;
    put_u64_le(buf, 1, input_amount);
    put_u64_le(buf, 9, reserve_x);
    put_u64_le(buf, 17, reserve_y);
    put_storage(buf, INSTRUCTION_SIZE, storage);
    assert(data@ =~= quote_frame(side, input_amount, reserve_x, reserve_y, storage@));
    data
}

/// Builds a whole after-trade frame: tag 2, the fields, then `storage` cut or
/// zero-filled to 1024 bytes.
pub fn encode_after_swap(
    side: u8,
    input_amount: u64,
    output_amount: u64,
    reserve_x: u64,
    reserve_y: u64,
    storage: &[u8],
) -> (data: Vec<u8>)
    ensures
        data@ == after_swap_frame(
            side,
            input_amount,
            output_amount,
            reserve_x,
            reserve_y,
            storage@,
        ),
        data@.len() == AFTER_SWAP_SIZE,
{
    let mut data: Vec<u8> = vec![0u8; AFTER_SWAP_SIZE];
    let buf = data.as_mut_slice();
    buf[0] = AFTER_SWAP_TAG;
    buf[1] = side;
    put_u64_le(buf, 2, input_amount);
    put_u64_le(buf, 10, output_amount);
    put_u64_le(buf, 18, reserve_x);
    put_u64_le(buf, 26, reserve_y);
    put_storage(buf, 34, storage);
    assert(data@ =~= after_swap_frame(
        side,
        input_amount,
        output_amount,
        reserve_x,
        reserve_y,
        storage@,
    ));
    data
}

/// The side byte of an after-trade frame.
pub open spec fn after_swap_side(data: Seq<u8>) -> u8 {
    data[1]
}

/// The input amount of an after-trade frame.
pub open spec fn after_swap_input_amount(data: Seq<u8>) -> u64 {
    u64_from_le(data.subrange(2, 10))
}

/// The output amount of an after-trade frame.
pub open spec fn after_swap_output_amount(data: Seq<u8>) -> u64 {
    u64_from_le(data.subrange(10, 18))
}

/// The X reserve of an after-trade frame.
pub open spec fn after_swap_reserve_x(data: Seq<u8>) -> u64 {
    u64_from_le(data.subrange(18, 26))
}

/// The Y reserve of an after-trade frame.
pub open spec fn after_swap_reserve_y(data: Seq<u8>) -> u64 {
    u64_from_le(data.subrange(26, 34))
}

/// The storage bytes that follow the header of an after-trade frame.
pub open spec fn after_swap_storage(data: Seq<u8>) -> Seq<u8> {
    data.skip(34)
}

/// Reads the fields of an after-trade frame and hands out the bytes that
/// follow them. The tag byte is not looked at.
pub fn decode_after_swap(data: &[u8]) -> (fields: (u8, u64, u64, u64, u64, &[u8]))
    requires
        data@.len() >= 34,
    ensures
        fields.0 == after_swap_side(data@),
        fields.1 == after_swap_input_amount(data@),
        fields.2 == after_swap_output_amount(data@),
        fields.3 == after_swap_reserve_x(data@),
        fields.4 == after_swap_reserve_y(data@),
        fields.5@ == after_swap_storage(data@),
{
    let side: u8 = data[1];
    let input_amount: u64 = get_u64_le(data, 2);
    let output_amount: u64 = get_u64_le(data, 10);
    let reserve_x: u64 = get_u64_le(data, 18);
    let reserve_y: u64 = get_u64_le(data, 26);
    let storage = vstd::slice::slice_subrange(data, 34, data.len());
    assert(storage@ =~= after_swap_storage(data@));
    (side, input_amount, output_amount, reserve_x, reserve_y, storage)
}

/// Decoding an encoded quote frame gives every field back: the four header
/// fields as they were, and the storage cut or zero-filled to 1024 bytes
/// (unchanged when it had 1024 bytes).
pub proof fn lemma_quote_frame_roundtrip(
    side: u8,
    input_amount: u64,
    reserve_x: u64,
    reserve_y: u64,
    storage: Seq<u8>,
)
    ensures
        ({
            let data = quote_frame(side, input_amount, reserve_x, reserve_y, storage);
            &&& data.len() == SWAP_INSTRUCTION_SIZE
            &&& frame_side(data) == side
            &&& frame_input_amount(data) == input_amount
            &&& frame_reserve_x(data) == reserve_x
            &&& frame_reserve_y(data) == reserve_y
            &&& frame_storage(data) == padded_storage(storage)
            &&& storage.len() == STORAGE_SIZE ==> frame_storage(data) == storage
        }),
{
    lemma_u64_le_roundtrip(input_amount);
    lemma_u64_le_roundtrip(reserve_x);
    lemma_u64_le_roundtrip(reserve_y);
    lemma_quote_frame_parts(
        seq![side],
        u64_le(input_amount),
        u64_le(reserve_x),
        u64_le(reserve_y),
        padded_storage(storage),
    );
    if storage.len() == STORAGE_SIZE {
        assert(padded_storage(storage) =~= storage);
    }
}

/// Decoding an encoded after-trade frame gives every field back: tag 2, the
/// five fields as they were, and the storage cut or zero-filled to 1024 bytes
/// (unchanged when it had 1024 bytes).
pub proof fn lemma_after_swap_frame_roundtrip(
    side: u8,
    input_amount: u64,
    output_amount: u64,
    reserve_x: u64,
    reserve_y: u64,
    storage: Seq<u8>,
)
    ensures
        ({
            let data = after_swap_frame(
                side,
                input_amount,
                output_amount,
                reserve_x,
                reserve_y,
                storage,
            );
            &&& data.len() == AFTER_SWAP_SIZE
            &&& data[0] == AFTER_SWAP_TAG
            &&& after_swap_side(data) == side
            &&& after_swap_input_amount(data) == input_amount
            &&& after_swap_output_amount(data) == output_amount
            &&& after_swap_reserve_x(data) == reserve_x
            &&& after_swap_reserve_y(data) == reserve_y
            &&& after_swap_storage(data) == padded_storage(storage)
            &&& storage.len() == STORAGE_SIZE ==> after_swap_storage(data) == storage
        }),
{
    lemma_u64_le_roundtrip(input_amount);
    lemma_u64_le_roundtrip(output_amount);
    lemma_u64_le_roundtrip(reserve_x);
    lemma_u64_le_roundtrip(reserve_y);
    lemma_after_swap_frame_parts(
        seq![AFTER_SWAP_TAG, side],
        u64_le(input_amount),
        u64_le(output_amount),
        u64_le(reserve_x),
        u64_le(reserve_y),
        padded_storage(storage),
    );
    if storage.len() == STORAGE_SIZE {
        assert(padded_storage(storage) =~= storage);
    }
}

/// Where the parts of a quote frame lie in the whole.
proof fn lemma_quote_frame_parts(h: Seq<u8>, a: Seq<u8>, x: Seq<u8>, y: Seq<u8>, p: Seq<u8>)
    requires
        h.len() == 1,
        a.len() == 8,
        x.len() == 8,
        y.len() == 8,
    ensures
        ({
            let data = h + a + x + y + p;
            &&& data.len() == 25 + p.len()
            &&& data[0] == h[0]
            &&& data.subrange(1, 9) == a
            &&& data.subrange(9, 17) == x
            &&& data.subrange(17, 25) == y
            &&& data.skip(25) == p
        }),
{
    let data = h + a + x + y + p;
    assert(data.subrange(1, 9) =~= a);
    assert(data.subrange(9, 17) =~= x);
    assert(data.subrange(17, 25) =~= y);
    assert(data.skip(25) =~= p);
}

/// Where the parts of an after-trade frame lie in the whole.
proof fn lemma_after_swap_frame_parts(
    h: Seq<u8>,
    a: Seq<u8>,
    b: Seq<u8>,
    x: Seq<u8>,
    y: Seq<u8>,
    p: Seq<u8>,
)
    requires
        h.len() == 2,
        a.len() == 8,
        b.len() == 8,
        x.len() == 8,
        y.len() == 8,
    ensures
        ({
            let data = h + a + b + x + y + p;
            &&& data.len() == 34 + p.len()
            &&& data[0] == h[0]
            &&& data[1] == h[1]
            &&& data.subrange(2, 10) == a
            &&& data.subrange(10, 18) == b
            &&& data.subrange(18, 26) == x
            &&& data.subrange(26, 34) == y
            &&& data.skip(34) == p
        }),
{
    let data = h + a + b + x + y + p;
    assert(data.subrange(2, 10) =~= a);
    assert(data.subrange(10, 18) =~= b);
    assert(data.subrange(18, 26) =~= x);
    assert(data.subrange(26, 34) =~= y);
    assert(data.skip(34) =~= p);
}

} // verus!
