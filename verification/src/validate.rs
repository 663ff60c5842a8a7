//! The integer checks that a submitted strategy has to pass: its quotes
//! must grow with the input, must not bend upward, and must hold up on
//! scrambled reserves and storage.

use crate::curve::gains_concave;
use crate::instruction::STORAGE_SIZE;
use vstd::prelude::*;

verus! {

/// Distance, in units, between the three inputs of one concavity probe.
pub const CONCAVITY_DELTA_NANO: u64 = 1_000_000;

/// Number of leading storage bytes that a scrambled probe fills.
pub const PROBE_STORAGE_BYTES: usize = 32;

/// The scrambling of `z`: three xor-shifts with two multiplications in 64
/// bits between them.
pub open spec fn mixed(z: u64) -> u64 {
    let a = z ^ (z >> 30);
    let b = a.wrapping_mul(0xbf58_476d_1ce4_e5b9);
    let c = b ^ (b >> 27);
    let d = c.wrapping_mul(0x94d0_49bb_1331_11eb);
    d ^ (d >> 31)
}

/// Scrambles `z`.
pub fn mix(z: u64) -> (out: u64)
    ensures
        out == mixed(z),
{
    let a: u64 = z ^ (z >> 30);
    let b: u64 = a.wrapping_mul(0xbf58_476d_1ce4_e5b9);
    let c: u64 = b ^ (b >> 27);
    let d: u64 = c.wrapping_mul(0x94d0_49bb_1331_11eb);
    d ^ (d >> 31)
}

/// `x`, or the largest 64-bit integer where `x` is beyond it.
pub open spec fn saturated(x: int) -> u64 {
    if x > u64::MAX {
        u64::MAX
    } else {
        x as u64
    }
}

/// The two inputs that follow `input` in a concavity probe: one delta
/// above it, and one more delta above that or the end of the 64-bit range;
/// nothing where the three would not rise strictly.
pub fn concavity_inputs(input: u64) -> (next: Option<(u64, u64)>)
    ensures
        input + CONCAVITY_DELTA_NANO < u64::MAX ==> next == Some(
            (
                (input + CONCAVITY_DELTA_NANO) as u64,
                saturated(input + 2 * CONCAVITY_DELTA_NANO),
            ),
        ),
        input + CONCAVITY_DELTA_NANO >= u64::MAX ==> next is None,
{
    let in_1: u64 = input.saturating_add(CONCAVITY_DELTA_NANO);
    let in_2: u64 = in_1.saturating_add(CONCAVITY_DELTA_NANO);
    if in_1 <= input || in_2 <= in_1 {
        return None;
    }
    Some((in_1, in_2))
}

/// Whether three quotes taken one delta apart pass the concavity check:
/// the second gain may exceed the first by one unit, no more.
pub fn concavity_holds(out_0: u64, out_1: u64, out_2: u64) -> (ok: bool)
    ensures
        ok == gains_concave(out_0 as nat, out_1 as nat, out_2 as nat),
{
    let step_1: i128 = out_1 as i128 - out_0 as i128;
    let step_2: i128 = out_2 as i128 - out_1 as i128;
    step_2 <= step_1 + 1
}

/// Whether the quote at `i` breaks monotonicity: it is no larger than the
/// quote before it, which was above zero.
pub open spec fn breaks_monotonicity(outputs: Seq<u64>, i: int) -> bool {
    0 < i < outputs.len() && outputs[i - 1] > 0 && outputs[i] <= outputs[i - 1]
}

/// The place of the first quote that breaks monotonicity among quotes
/// taken at growing inputs, or nothing where none does.
pub fn monotonicity_violation(outputs: &[u64]) -> (at: Option<usize>)
    ensures
        match at {
            Some(i) => breaks_monotonicity(outputs@, i as int) && forall|j: int|
                0 <= j < i ==> !breaks_monotonicity(outputs@, j),
            None => forall|j: int| 0 <= j < outputs@.len() ==> !breaks_monotonicity(outputs@, j),
        },
{
    let n: usize = outputs.len();
    let mut prev_output: u64 = 0;
    let mut i: usize = 0;
    while i < n
        invariant
            i <= n,
            n == outputs@.len(),
            prev_output == if i == 0 {
                0
            } else {
                outputs@[i - 1]
            },
            forall|j: int| 0 <= j < i ==> !breaks_monotonicity(outputs@, j),
        decreases n - i,
    {
        let output: u64 = outputs[i];
        if output <= prev_output && prev_output > 0 {
            return Some(i);
        }
        prev_output = output;
        i += 1;
    }
    None
}

/// One scrambled state to try a strategy on.
pub struct Probe {
    /// Storage: scrambled in its first 32 bytes, zero behind them.
    pub storage: Vec<u8>,
    /// X reserve, in units.
    pub reserve_x: u64,
    /// Y reserve, in units.
    pub reserve_y: u64,
    /// Side of the trade: 0 or 1.
    pub side: u8,
    /// Input of the trade, in units.
    pub amount: u64,
}

/// The storage of the probe for `seed`.
pub open spec fn probe_storage(seed: u64) -> Seq<u8> {
    Seq::new(
        STORAGE_SIZE as nat,
        |i: int|
            if i < PROBE_STORAGE_BYTES {
                (mixed(wrapping(seed + i)) & 0xFF) as u8
            } else {
                0u8
            },
    )
}

/// `x` in 64 bits.
pub open spec fn wrapping(x: int) -> u64 {
    (x % 0x1_0000_0000_0000_0000) as u64
}

/// The probe for `seed`: every number of it is a scrambling of the seed,
/// the reserves from one unit of 10^9 up, the input from 10^6 up, the side
/// the seed's lowest bit.
pub fn random_probe(seed: u64) -> (probe: Probe)
    ensures
        probe.storage@ == probe_storage(seed),
        probe.reserve_x == 1_000_000_000 + mixed(seed ^ 0x0123_4567_89AB_CDEF)
            % 2_000_000_000_000,
        probe.reserve_y == 1_000_000_000 + mixed(seed ^ 0x0F0F_0F0F_F0F0_F0F0)
            % 200_000_000_000_000,
        probe.side == (seed & 1) as u8,
        probe.side <= 1,
        probe.amount == 1_000_000 + mixed(seed ^ 0xDEAD_BEEF) % 10_000_000_000,
{
    let mut storage: Vec<u8> = vec![0u8; STORAGE_SIZE];
    let mut i: usize = 0;
    while i < PROBE_STORAGE_BYTES
        invariant
            i <= PROBE_STORAGE_BYTES,
            storage@.len() == STORAGE_SIZE,
            forall|j: int| 0 <= j < i ==> storage@[j] == probe_storage(seed)[j],
            forall|j: int| i <= j < STORAGE_SIZE ==> storage@[j] == 0,
        decreases PROBE_STORAGE_BYTES - i,
    {
        let z: u64 = seed.wrapping_add(i as u64);
        let m: u64 = mix(z);
        let low: u64 = m & 0xFF;
        assert(low < 0x100) by (bit_vector)
            requires
                low == m & 0xFF,
        ;
        storage[i] = low as u8;
        i += 1;
    }
    assert(storage@ =~= probe_storage(seed));
    let reserve_x: u64 = 1_000_000_000u64 + (mix(seed ^ 0x0123_4567_89AB_CDEF)
        % 2_000_000_000_000u64);
    let reserve_y: u64 = 1_000_000_000u64 + (mix(seed ^ 0x0F0F_0F0F_F0F0_F0F0)
        % 200_000_000_000_000u64);
    let bit: u64 = seed & 1;
    assert(bit <= 1) by (bit_vector)
        requires
            bit == seed & 1,
    ;
    let side: u8 = bit as u8;
    let amount: u64 = 1_000_000 + (mix(seed ^ 0xDEAD_BEEF) % 10_000_000_000);
    Probe { storage, reserve_x, reserve_y, side, amount }
}

/// `x`, or zero where `x` is below it.
pub open spec fn floored(x: int) -> u64 {
    if x < 0 {
        0
    } else {
        x as u64
    }
}

/// The reserves after a trade, as the after-trade frame reports them: the
/// input added to its side, the output taken from the other, each held
/// within the 64-bit range.
pub fn post_trade_reserves(side: u8, reserve_x: u64, reserve_y: u64, amount: u64, out: u64) -> (post:
    (u64, u64))
    ensures
        side == 0 ==> post.0 == floored(reserve_x - out) && post.1 == saturated(
            reserve_y + amount,
        ),
        side != 0 ==> post.0 == saturated(reserve_x + amount) && post.1 == floored(
            reserve_y - out,
        ),
{
    if side == 0 {
        (reserve_x.saturating_sub(out), reserve_y.saturating_add(amount))
    } else {
        (reserve_x.saturating_add(amount), reserve_y.saturating_sub(out))
    }
}

} // verus!
