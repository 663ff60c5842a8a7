//! The input buffer that a sandboxed program finds at its entry point.
//!
//! The buffer has a fixed size and the layout of a call without accounts:
//!
//! | offset | size | field                         |
//! |--------|------|-------------------------------|
//! | 0      | 8    | number of accounts, zero      |
//! | 8      | 8    | length of the frame           |
//! | 16     | ..   | the frame                     |
//! | ..     | ..   | zeros: the program id and the rest of the buffer |

use crate::instruction::{
    after_swap_frame, put_storage, quote_frame, AFTER_SWAP_SIZE, AFTER_SWAP_TAG, STORAGE_SIZE,
    SWAP_INSTRUCTION_SIZE,
};
use crate::wire::{put_u64_le, u64_le};
use vstd::prelude::*;

verus! {

/// Bytes of the input buffer: two lengths, the longer of the two frames and
/// a 32-byte program id.
pub const INPUT_BUF_SIZE: usize = 1106;

/// Where the frame starts in the input buffer.
pub const FRAME_OFFSET: usize = 16;

/// Compute budget of one sandboxed run.
pub const COMPUTE_BUDGET: u64 = 100_000;

/// Bytes of heap that a sandboxed run gets.
pub const HEAP_SIZE: usize = 32 * 1024;

/// The input buffer that carries `frame`.
pub open spec fn input_buffer(frame: Seq<u8>) -> Seq<u8> {
    u64_le(0) + u64_le(frame.len() as u64) + frame + Seq::new(
        (INPUT_BUF_SIZE - FRAME_OFFSET - frame.len()) as nat,
        |i: int| 0u8,
    )
}

/// Empties `input_buf` and makes it 1106 zero bytes long.
fn zeroed(input_buf: &mut Vec<u8>)
    ensures
        final(input_buf)@ == Seq::new(INPUT_BUF_SIZE as nat, |i: int| 0u8),
{
    input_buf.clear();
    input_buf.resize(INPUT_BUF_SIZE, 0u8);
    assert(input_buf@ =~= Seq::new(INPUT_BUF_SIZE as nat, |i: int| 0u8));
}

/// Fills `input_buf` for a quote run: whatever it held is dropped, and it
/// becomes the input buffer that carries the quote frame for the given
/// fields.
pub fn load_swap_input(
    input_buf: &mut Vec<u8>,
    side: u8,
    amount: u64,
    rx: u64,
    ry: u64,
    storage: &[u8],
)
    ensures
        final(input_buf)@ == input_buffer(quote_frame(side, amount, rx, ry, storage@)),
        final(input_buf)@.len() == INPUT_BUF_SIZE,
{
    zeroed(input_buf);
    let buf = input_buf.as_mut_slice();
    put_u64_le(buf, 8, SWAP_INSTRUCTION_SIZE as u64);
    buf[FRAME_OFFSET] = side;
    put_u64_le(buf, FRAME_OFFSET + 1, amount);
    put_u64_le(buf, FRAME_OFFSET + 9, rx);
    put_u64_le(buf, FRAME_OFFSET + 17, ry);
    put_storage(buf, FRAME_OFFSET + 25, storage);
    proof {
        crate::wire::lemma_u64_le_roundtrip(0);
        let frame = quote_frame(side, amount, rx, ry, storage@);
        assert(frame.len() == SWAP_INSTRUCTION_SIZE);
        assert(input_buf@.subrange(0, 8) =~= u64_le(0));
        assert(input_buf@ =~= input_buffer(frame));
    }
}

/// Fills `input_buf` for an after-trade run: whatever it held is dropped,
/// and it becomes the input buffer that carries the after-trade frame for
/// the given fields.
pub fn load_after_swap_input(
    input_buf: &mut Vec<u8>,
    side: u8,
    input_amount: u64,
    output_amount: u64,
    rx: u64,
    ry: u64,
    storage: &[u8],
)
    ensures
        final(input_buf)@ == input_buffer(
            after_swap_frame(side, input_amount, output_amount, rx, ry, storage@),
        ),
        final(input_buf)@.len() == INPUT_BUF_SIZE,
{
    zeroed(input_buf);
    let buf = input_buf.as_mut_slice();
    put_u64_le(buf, 8, AFTER_SWAP_SIZE as u64);
    buf[FRAME_OFFSET] = AFTER_SWAP_TAG;
    buf[FRAME_OFFSET + 1] = side;
    put_u64_le(buf, FRAME_OFFSET + 2, input_amount);
    put_u64_le(buf, FRAME_OFFSET + 10, output_amount);
    put_u64_le(buf, FRAME_OFFSET + 18, rx);
    put_u64_le(buf, FRAME_OFFSET + 26, ry);
    put_storage(buf, FRAME_OFFSET + 34, storage);
    proof {
        crate::wire::lemma_u64_le_roundtrip(0);
        let frame = after_swap_frame(side, input_amount, output_amount, rx, ry, storage@);
        assert(frame.len() == AFTER_SWAP_SIZE);
        assert(input_buf@.subrange(0, 8) =~= u64_le(0));
        assert(input_buf@ =~= input_buffer(frame));
    }
}

} // verus!
