//! The reference strategy: a constant-product pool whose fee, in basis
//! points, is read from the first two storage bytes of the quote frame.

use crate::curve::{
    gains_concave, lemma_pool_output_bounds, lemma_quote_concave, lemma_quote_concave_even_steps,
    lemma_quote_monotone, net_input, quote, swap_output,
};
use crate::instruction::{
    decode_instruction, frame_input_amount, frame_reserve_x, frame_reserve_y, frame_side,
    lemma_quote_frame_roundtrip, padded_storage, quote_frame, INSTRUCTION_SIZE,
};
use crate::wire::{get_u16_le, u16_from_le};
use vstd::prelude::*;

verus! {

/// Fee charged where the storage names none.
pub const DEFAULT_FEE_BPS: u16 = 30;

/// Basis points in the whole.
pub const BPS_SCALE: u64 = 10_000;

/// The fee, in basis points, that the first two bytes of `storage` name:
/// their little-endian value, or 30 where that is zero or the bytes are
/// missing.
pub open spec fn storage_fee_bps(storage: Seq<u8>) -> u16 {
    if storage.len() >= 2 && u16_from_le(storage.subrange(0, 2)) != 0 {
        u16_from_le(storage.subrange(0, 2))
    } else {
        DEFAULT_FEE_BPS
    }
}

/// The share of an input, in basis points, that a fee of `fee_bps` leaves; a
/// fee of the whole or more leaves nothing.
pub open spec fn kept_bps(fee_bps: u16) -> nat {
    if fee_bps >= BPS_SCALE {
        0
    } else {
        (BPS_SCALE - fee_bps) as nat
    }
}

/// The reference quote for a pool that takes the input into `reserve_in`
/// and pays out of `reserve_out`; nothing where a reserve is empty.
pub open spec fn reference_quote(input: u64, reserve_in: u64, reserve_out: u64, fee_bps: u16) -> nat {
    if reserve_in == 0 || reserve_out == 0 {
        0
    } else {
        quote(input as nat, reserve_in as nat, reserve_out as nat, kept_bps(fee_bps), BPS_SCALE as nat)
    }
}

/// What the reference strategy answers to the frame `data`: zero for a
/// frame shorter than its header, for an empty reserve and for a side
/// other than 0 and 1; else the constant-product quote, X out of the X
/// reserve for side 0 and Y out of the Y reserve for side 1.
pub open spec fn swap_result(data: Seq<u8>) -> nat {
    if data.len() < INSTRUCTION_SIZE {
        0
    } else {
        let fee_bps = storage_fee_bps(data.skip(INSTRUCTION_SIZE as int));
        if frame_side(data) == 0 {
            reference_quote(
                frame_input_amount(data),
                frame_reserve_y(data),
                frame_reserve_x(data),
                fee_bps,
            )
        } else if frame_side(data) == 1 {
            reference_quote(
                frame_input_amount(data),
                frame_reserve_x(data),
                frame_reserve_y(data),
                fee_bps,
            )
        } else {
            0
        }
    }
}

/// Reads the fee, in basis points, from the first two bytes of `storage`.
pub fn fee_bps_from_storage(storage: &[u8]) -> (fee_bps: u16)
    ensures
        fee_bps == storage_fee_bps(storage@),
        fee_bps != 0,
{
    if storage.len() >= 2 {
        let raw: u16 = get_u16_le(storage, 0);
        if raw == 0 {
            DEFAULT_FEE_BPS
        } else {
            raw
        }
    } else {
        DEFAULT_FEE_BPS
    }
}

/// The reference strategy's quote for the frame `data`.
pub fn compute_swap(data: &[u8]) -> (out: u64)
    ensures
        out == swap_result(data@),
{
    if data.len() < INSTRUCTION_SIZE {
        return 0;
    }
    let (side, input_amount, reserve_x, reserve_y) = decode_instruction(data);
    if reserve_x == 0 || reserve_y == 0 {
        return 0;
    }
    let storage = vstd::slice::slice_subrange(data, INSTRUCTION_SIZE, data.len());
    assert(storage@ =~= data@.skip(INSTRUCTION_SIZE as int));
    let fee_bps: u16 = fee_bps_from_storage(storage);
    let kept: u64 = if fee_bps as u64 >= BPS_SCALE {
        0
    } else {
        BPS_SCALE - fee_bps as u64
    };
    if side == 0 {
        swap_output(input_amount, reserve_y, reserve_x, kept, BPS_SCALE)
    } else if side == 1 {
        swap_output(input_amount, reserve_x, reserve_y, kept, BPS_SCALE)
    } else {
        0
    }
}

/// The reference strategy's after-trade hook: it keeps no state, so the
/// storage is left as it was.
pub fn after_swap(data: &[u8], storage: &mut [u8])
    ensures
        final(storage)@ == old(storage)@,
{
}

/// The reference answer to a well-formed quote frame, by its fields.
pub proof fn lemma_swap_result_of_frame(
    side: u8,
    input_amount: u64,
    reserve_x: u64,
    reserve_y: u64,
    storage: Seq<u8>,
)
    ensures
        swap_result(quote_frame(side, input_amount, reserve_x, reserve_y, storage)) == if side
            == 0 {
            reference_quote(
                input_amount,
                reserve_y,
                reserve_x,
                storage_fee_bps(padded_storage(storage)),
            )
        } else if side == 1 {
            reference_quote(
                input_amount,
                reserve_x,
                reserve_y,
                storage_fee_bps(padded_storage(storage)),
            )
        } else {
            0
        },
{
    lemma_quote_frame_roundtrip(side, input_amount, reserve_x, reserve_y, storage);
}

/// The reference strategy never quotes a whole reserve: what it answers to
/// a frame is below the X reserve for side 0 and below the Y reserve for
/// side 1, and zero where that reserve is empty.
pub proof fn lemma_compute_swap_below_reserve(
    side: u8,
    input_amount: u64,
    reserve_x: u64,
    reserve_y: u64,
    storage: Seq<u8>,
)
    ensures
        ({
            let out = swap_result(quote_frame(side, input_amount, reserve_x, reserve_y, storage));
            &&& side == 0 ==> out < reserve_x || (out == 0 && reserve_x == 0)
            &&& side == 1 ==> out < reserve_y || (out == 0 && reserve_y == 0)
            &&& side > 1 ==> out == 0
        }),
{
    lemma_swap_result_of_frame(side, input_amount, reserve_x, reserve_y, storage);
    let kept = kept_bps(storage_fee_bps(padded_storage(storage)));
    let net = net_input(input_amount as nat, kept, BPS_SCALE as nat);
    lemma_pool_output_bounds(reserve_y as nat, reserve_x as nat, net);
    lemma_pool_output_bounds(reserve_x as nat, reserve_y as nat, net);
}

/// Monotonicity of the reference curve: of two frames that differ in the
/// input amount alone, the one with the larger input never gets the smaller
/// answer.
pub proof fn lemma_compute_swap_monotone(
    side: u8,
    input_1: u64,
    input_2: u64,
    reserve_x: u64,
    reserve_y: u64,
    storage: Seq<u8>,
)
    requires
        input_1 <= input_2,
    ensures
        swap_result(quote_frame(side, input_1, reserve_x, reserve_y, storage)) <= swap_result(
            quote_frame(side, input_2, reserve_x, reserve_y, storage),
        ),
{
    lemma_swap_result_of_frame(side, input_1, reserve_x, reserve_y, storage);
    lemma_swap_result_of_frame(side, input_2, reserve_x, reserve_y, storage);
    let kept = kept_bps(storage_fee_bps(padded_storage(storage)));
    lemma_quote_monotone(
        input_1 as nat,
        input_2 as nat,
        reserve_y as nat,
        reserve_x as nat,
        kept,
        BPS_SCALE as nat,
    );
    lemma_quote_monotone(
        input_1 as nat,
        input_2 as nat,
        reserve_x as nat,
        reserve_y as nat,
        kept,
        BPS_SCALE as nat,
    );
}

/// Concavity of the reference curve: over three frames that differ in the
/// input amount alone, with inputs one `step` apart, the second gain exceeds
/// the first by at most one unit, for every step a whole number of basis
/// points of which the fee leaves (every multiple of 10 000 units is one).
pub proof fn lemma_compute_swap_concave(
    side: u8,
    input: u64,
    step: u64,
    reserve_x: u64,
    reserve_y: u64,
    storage: Seq<u8>,
)
    requires
        input + step + step <= u64::MAX,
        (step * kept_bps(storage_fee_bps(padded_storage(storage)))) % (BPS_SCALE as int) == 0,
    ensures
        gains_concave(
            swap_result(quote_frame(side, input, reserve_x, reserve_y, storage)),
            swap_result(quote_frame(side, (input + step) as u64, reserve_x, reserve_y, storage)),
            swap_result(
                quote_frame(side, (input + step + step) as u64, reserve_x, reserve_y, storage),
            ),
        ),
{
    let s1 = (input + step) as u64;
    let s2 = (input + step + step) as u64;
    lemma_swap_result_of_frame(side, input, reserve_x, reserve_y, storage);
    lemma_swap_result_of_frame(side, s1, reserve_x, reserve_y, storage);
    lemma_swap_result_of_frame(side, s2, reserve_x, reserve_y, storage);
    let kept = kept_bps(storage_fee_bps(padded_storage(storage)));
    lemma_quote_concave_even_steps(
        input as nat,
        step as nat,
        reserve_y as nat,
        reserve_x as nat,
        kept,
        BPS_SCALE as nat,
    );
    lemma_quote_concave_even_steps(
        input as nat,
        step as nat,
        reserve_x as nat,
        reserve_y as nat,
        kept,
        BPS_SCALE as nat,
    );
}

/// Concavity of the reference curve over any three inputs in order: the
/// second gain exceeds the first by at most one unit wherever, after the
/// fee's rounding, the second net step is no longer than the first.
pub proof fn lemma_compute_swap_concave_net(
    side: u8,
    input_0: u64,
    input_1: u64,
    input_2: u64,
    reserve_x: u64,
    reserve_y: u64,
    storage: Seq<u8>,
)
    requires
        input_0 <= input_1 <= input_2,
        ({
            let kept = kept_bps(storage_fee_bps(padded_storage(storage)));
            net_input(input_2 as nat, kept, BPS_SCALE as nat) - net_input(
                input_1 as nat,
                kept,
                BPS_SCALE as nat,
            ) <= net_input(input_1 as nat, kept, BPS_SCALE as nat) - net_input(
                input_0 as nat,
                kept,
                BPS_SCALE as nat,
            )
        }),
    ensures
        gains_concave(
            swap_result(quote_frame(side, input_0, reserve_x, reserve_y, storage)),
            swap_result(quote_frame(side, input_1, reserve_x, reserve_y, storage)),
            swap_result(quote_frame(side, input_2, reserve_x, reserve_y, storage)),
        ),
{
    lemma_swap_result_of_frame(side, input_0, reserve_x, reserve_y, storage);
    lemma_swap_result_of_frame(side, input_1, reserve_x, reserve_y, storage);
    lemma_swap_result_of_frame(side, input_2, reserve_x, reserve_y, storage);
    let kept = kept_bps(storage_fee_bps(padded_storage(storage)));
    lemma_quote_concave(
        input_0 as nat,
        input_1 as nat,
        input_2 as nat,
        reserve_y as nat,
        reserve_x as nat,
        kept,
        BPS_SCALE as nat,
    );
    lemma_quote_concave(
        input_0 as nat,
        input_1 as nat,
        input_2 as nat,
        reserve_x as nat,
        reserve_y as nat,
        kept,
        BPS_SCALE as nat,
    );
}

} // verus!
