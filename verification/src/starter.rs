//! The starter strategy: a constant-product pool that keeps 950 of every
//! 1000 units of input and ignores its storage.

use crate::curve::{lemma_quote_monotone, quote, swap_output};
use crate::instruction::{
    decode_instruction, frame_input_amount, frame_reserve_x, frame_reserve_y, frame_side,
    lemma_quote_frame_roundtrip, quote_frame, INSTRUCTION_SIZE,
};
use vstd::prelude::*;

verus! {

/// Units of every `FEE_DENOMINATOR` that stay in the trade.
pub const FEE_NUMERATOR: u64 = 950;

/// The whole of which `FEE_NUMERATOR` counts the part.
pub const FEE_DENOMINATOR: u64 = 1000;

/// The starter quote for a pool that takes the input into `reserve_in` and
/// pays out of `reserve_out`; nothing where a reserve is empty.
pub open spec fn starter_quote(input: u64, reserve_in: u64, reserve_out: u64) -> nat {
    if reserve_in == 0 || reserve_out == 0 {
        0
    } else {
        quote(
            input as nat,
            reserve_in as nat,
            reserve_out as nat,
            FEE_NUMERATOR as nat,
            FEE_DENOMINATOR as nat,
        )
    }
}

/// What the starter strategy answers to the frame `data`: zero for a frame
/// shorter than its header, for an empty reserve and for a side other than
/// 0 and 1; else the constant-product quote, X out of the X reserve for
/// side 0 and Y out of the Y reserve for side 1.
pub open spec fn swap_result(data: Seq<u8>) -> nat {
    if data.len() < INSTRUCTION_SIZE {
        0
    } else if frame_side(data) == 0 {
        starter_quote(frame_input_amount(data), frame_reserve_y(data), frame_reserve_x(data))
    } else if frame_side(data) == 1 {
        starter_quote(frame_input_amount(data), frame_reserve_x(data), frame_reserve_y(data))
    } else {
        0
    }
}

/// The starter strategy's quote for the frame `data`.
pub fn compute_swap(data: &[u8]) -> (out: u64)
    ensures
        out == swap_result(data@),
{
    if data.len() < INSTRUCTION_SIZE {
        return 0;
    }
    let (side, input_amount, reserve_x, reserve_y) = decode_instruction(data);
    if reserve_x == 0 || reserve_y == 0 {
        return 0;
    }
    if side == 0 {
        swap_output(input_amount, reserve_y, reserve_x, FEE_NUMERATOR, FEE_DENOMINATOR)
    } else if side == 1 {
        swap_output(input_amount, reserve_x, reserve_y, FEE_NUMERATOR, FEE_DENOMINATOR)
    } else {
        0
    }
}

/// The starter strategy's after-trade hook: it keeps no state, so the
/// storage is left as it was.
pub fn after_swap(data: &[u8], storage: &mut [u8])
    ensures
        final(storage)@ == old(storage)@,
{
}

/// Of two frames that differ in the input amount alone, the one with the
/// larger input never gets the smaller answer.
pub proof fn lemma_compute_swap_monotone(
    side: u8,
    input_1: u64,
    input_2: u64,
    reserve_x: u64,
    reserve_y: u64,
    storage: Seq<u8>,
)
    requires
        input_1 <= input_2,
    ensures
        swap_result(quote_frame(side, input_1, reserve_x, reserve_y, storage)) <= swap_result(
            quote_frame(side, input_2, reserve_x, reserve_y, storage),
        ),
{
    lemma_quote_frame_roundtrip(side, input_1, reserve_x, reserve_y, storage);
    lemma_quote_frame_roundtrip(side, input_2, reserve_x, reserve_y, storage);
    lemma_quote_monotone(
        input_1 as nat,
        input_2 as nat,
        reserve_y as nat,
        reserve_x as nat,
        FEE_NUMERATOR as nat,
        FEE_DENOMINATOR as nat,
    );
    lemma_quote_monotone(
        input_1 as nat,
        input_2 as nat,
        reserve_x as nat,
        reserve_y as nat,
        FEE_NUMERATOR as nat,
        FEE_DENOMINATOR as nat,
    );
}

} // verus!
