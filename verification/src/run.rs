//! Planning a batch: which simulations to run, with which seeds, on how
//! many workers.

use vstd::prelude::*;

verus! {

/// Most workers that a batch uses when the caller names no number.
pub const DEFAULT_MAX_WORKERS: usize = 8;

/// Why a batch was not planned.
#[derive(Clone, Copy, Debug, PartialEq, Eq)]
pub enum RunError {
    /// The seed stride was zero, which would give every simulation one seed.
    ZeroSeedStride,
}

/// What a batch is to do.
#[derive(Clone, Copy, Debug, PartialEq, Eq)]
pub struct RunPlan {
    /// Number of simulations.
    pub simulations: u32,
    /// Steps of each simulation.
    pub steps: u32,
    /// Workers to use, or `None` to go by the machine.
    pub n_workers: Option<usize>,
    /// Seed of the first simulation.
    pub seed_start: u64,
    /// Distance between the seeds of two neighbouring simulations.
    pub seed_stride: u64,
    /// Whether the strategy runs in the sandbox; natively where not.
    pub bpf: bool,
}

/// The seeds of one simulation's three random streams.
#[derive(Clone, Copy, Debug, PartialEq, Eq)]
pub struct SimSeeds {
    /// Seed of the price process.
    pub price: u64,
    /// Seed of the retail flow.
    pub retail: u64,
    /// Seed of the arbitrageur.
    pub arbitrage: u64,
}

/// `a + b` in 64 bits, starting over at zero past the range.
pub open spec fn wrapping_sum(a: u64, b: int) -> u64 {
    ((a + b) % 0x1_0000_0000_0000_0000) as u64
}

/// The seed of simulation number `index` of a batch: the starting seed and
/// `index` strides, in 64 bits.
pub open spec fn sim_seed(seed_start: u64, seed_stride: u64, index: nat) -> u64 {
    wrapping_sum(seed_start, index * seed_stride)
}

/// The number of workers of a batch: the number asked for, or, where none
/// is, the number the machine offers, up to eight.
pub open spec fn workers_for(requested: Option<usize>, available: usize) -> usize {
    match requested {
        Some(n) => n,
        None => if available < DEFAULT_MAX_WORKERS {
            available
        } else {
            DEFAULT_MAX_WORKERS
        },
    }
}

/// Plans a batch from the caller's numbers. A worker count of zero leaves
/// the choice to the machine. A seed stride of zero is refused.
pub fn run(
    simulations: u32,
    steps: u32,
    workers: usize,
    seed_start: u64,
    seed_stride: u64,
    bpf: bool,
) -> (result: Result<RunPlan, RunError>)
    ensures
        seed_stride == 0 ==> result == Err::<RunPlan, RunError>(RunError::ZeroSeedStride),
        seed_stride != 0 ==> result == Ok::<RunPlan, RunError>(
            RunPlan {
                simulations,
                steps,
                n_workers: if workers == 0 {
                    None
                } else {
                    Some(workers)
                },
                seed_start,
                seed_stride,
                bpf,
            },
        ),
{
    if seed_stride == 0 {
        return Err(RunError::ZeroSeedStride);
    }
    let n_workers: Option<usize> = if workers == 0 {
        None
    } else {
        Some(workers)
    };
    Ok(RunPlan { simulations, steps, n_workers, seed_start, seed_stride, bpf })
}

/// The number of workers of a batch, given what was asked for and what the
/// machine offers.
pub fn worker_count(requested: Option<usize>, available: usize) -> (n: usize)
    ensures
        n == workers_for(requested, available),
{
    match requested {
        Some(n) => n,
        None => if available < DEFAULT_MAX_WORKERS {
            available
        } else {
            DEFAULT_MAX_WORKERS
        },
    }
}

/// `a + b` in 64 bits.
fn wrapping_add(a: u64, b: u64) -> (sum: u64)
    ensures
        sum == wrapping_sum(a, b as int),
{
    if a > u64::MAX - b {
        a - (u64::MAX - b) - 1
    } else {
        a + b
    }
}

/// Adding a stride to the seed of one simulation gives the seed of the
/// next.
proof fn lemma_next_seed(seed_start: u64, seed_stride: u64, index: nat)
    ensures
        wrapping_sum(sim_seed(seed_start, seed_stride, index), seed_stride as int) == sim_seed(
            seed_start,
            seed_stride,
            index + 1,
        ),
{
    let m = 0x1_0000_0000_0000_0000int;
    let x = seed_start + index * seed_stride;
    assert((index + 1) * seed_stride == index * seed_stride + seed_stride) by (nonlinear_arith);
    vstd::arithmetic::div_mod::lemma_add_mod_noop(x, seed_stride as int, m);
    vstd::arithmetic::div_mod::lemma_small_mod(seed_stride as nat, m as nat);
}

/// The seeds of a batch's simulations, in order.
pub fn batch_seeds(simulations: u32, seed_start: u64, seed_stride: u64) -> (seeds: Vec<u64>)
    ensures
        seeds@.len() == simulations,
        forall|i: int|
            0 <= i < simulations ==> seeds@[i] == sim_seed(seed_start, seed_stride, i as nat),
{
    let mut seeds: Vec<u64> = Vec::new();
    let mut seed: u64 = seed_start;
    let mut i: u32 = 0;
    assert(0 * seed_stride == 0) by (nonlinear_arith);
    while i < simulations
        invariant
            i <= simulations,
            seeds@.len() == i,
            seed == sim_seed(seed_start, seed_stride, i as nat),
            forall|j: int| 0 <= j < i ==> seeds@[j] == sim_seed(seed_start, seed_stride, j as nat),
        decreases simulations - i,
    {
        seeds.push(seed);
        proof {
            lemma_next_seed(seed_start, seed_stride, i as nat);
        }
        seed = wrapping_add(seed, seed_stride);
        i += 1;
    }
    seeds
}

/// The seeds of one simulation's streams: the simulation's seed for the
/// price process, the next for the retail flow, the one after that for the
/// arbitrageur, each in 64 bits.
pub fn sim_seeds(seed: u64) -> (seeds: SimSeeds)
    ensures
        seeds.price == seed,
        seeds.retail == wrapping_sum(seed, 1),
        seeds.arbitrage == wrapping_sum(seed, 2),
{
    SimSeeds { price: seed, retail: wrapping_add(seed, 1), arbitrage: wrapping_add(seed, 2) }
}

/// The smallest and the largest of the seeds that a batch ran, or nothing
/// for a batch without simulations.
pub fn seed_range(seeds: &[u64]) -> (range: Option<(u64, u64)>)
    ensures
        seeds@.len() == 0 <==> range is None,
        range is Some ==> {
            let (lo, hi) = range->0;
            &&& seeds@.contains(lo)
            &&& seeds@.contains(hi)
            &&& forall|i: int| 0 <= i < seeds@.len() ==> lo <= #[trigger] seeds@[i] <= hi
        },
{
    let n: usize = seeds.len();
    if n == 0 {
        return None;
    }
    let mut lo: u64 = seeds[0];
    let mut hi: u64 = seeds[0];
    let mut i: usize = 1;
    while i < n
        invariant
            1 <= i <= n,
            n == seeds@.len(),
            seeds@.contains(lo),
            seeds@.contains(hi),
            forall|j: int| 0 <= j < i ==> lo <= #[trigger] seeds@[j] <= hi,
        decreases n - i,
    {
        let seed: u64 = seeds[i];
        if seed < lo {
            lo = seed;
        }
        if seed > hi {
            hi = seed;
        }
        i += 1;
    }
    Some((lo, hi))
}

} // verus!
