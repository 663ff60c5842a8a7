//! The part of a market maker's state that belongs to its strategy: the
//! 1024 bytes of storage, which a quote may read and only the after-trade
//! hook may write, and the step of the simulation.

use crate::error::ExecutorError;
use crate::instruction::{after_swap_frame, padded_storage, quote_frame, STORAGE_SIZE};
use crate::native::{accepts_all, accepts_frame, answers, with_window, NativeExecutor};
use crate::normalizer::{fee_bps_from_storage, storage_fee_bps};
use crate::syscalls::SyscallContext;
use crate::wire::u16_le;
use vstd::prelude::*;

verus! {

/// `storage` with its first bytes overwritten by up to 1024 bytes of
/// `bytes`.
pub open spec fn overwritten(storage: Seq<u8>, bytes: Seq<u8>) -> Seq<u8> {
    Seq::new(
        storage.len(),
        |i: int|
            if i < bytes.len() {
                bytes[i]
            } else {
                storage[i]
            },
    )
}

/// A strategy's storage and the step it is at.
pub struct StrategyState {
    storage: Vec<u8>,
    current_step: u64,
}

impl StrategyState {
    /// The storage always holds exactly 1024 bytes.
    pub closed spec fn wf(&self) -> bool {
        self.storage@.len() == STORAGE_SIZE
    }

    /// The bytes of the storage.
    pub closed spec fn bytes(&self) -> Seq<u8> {
        self.storage@
    }

    /// The step of the simulation.
    pub closed spec fn step(&self) -> u64 {
        self.current_step
    }

    /// The storage has 1024 bytes wherever the state is well formed.
    pub proof fn lemma_storage_len(&self)
        requires
            self.wf(),
        ensures
            self.bytes().len() == STORAGE_SIZE,
    {
    }

    /// Zeroed storage at step 0.
    pub fn new() -> (state: Self)
        ensures
            state.wf(),
            state.bytes() == padded_storage(Seq::empty()),
            state.step() == 0,
    {
        let state = StrategyState { storage: vec![0u8; STORAGE_SIZE], current_step: 0 };
        assert(state.storage@ =~= padded_storage(Seq::empty()));
        state
    }

    /// Moves the state to `step`.
    pub fn set_current_step(&mut self, step: u64)
        requires
            old(self).wf(),
        ensures
            final(self).wf(),
            final(self).step() == step,
            final(self).bytes() == old(self).bytes(),
    {
        self.current_step = step;
    }

    /// The step of the simulation.
    pub fn current_step(&self) -> (step: u64)
        ensures
            step == self.step(),
    {
        self.current_step
    }

    /// Writes up to 1024 bytes of `bytes` over the start of the storage;
    /// what lies behind them stays.
    pub fn set_initial_storage(&mut self, bytes: &[u8])
        requires
            old(self).wf(),
        ensures
            final(self).wf(),
            final(self).step() == old(self).step(),
            final(self).bytes() == overwritten(old(self).bytes(), bytes@),
    {
        let n: usize = if bytes.len() < STORAGE_SIZE {
            bytes.len()
        } else {
            STORAGE_SIZE
        };
        let mut k: usize = 0;
        while k < n
            invariant
                k <= n <= STORAGE_SIZE,
                n <= bytes@.len(),
                n == STORAGE_SIZE || n == bytes@.len(),
                self.storage@.len() == STORAGE_SIZE,
                self.current_step == old(self).current_step,
                forall|i: int| 0 <= i < k ==> self.storage@[i] == bytes@[i],
                forall|i: int| k <= i < STORAGE_SIZE ==> self.storage@[i] == old(self).storage@[i],
            decreases n - k,
        {
            self.storage[k] = bytes[k];
            k += 1;
        }
        assert(self.storage@ =~= overwritten(old(self).storage@, bytes@));
    }

    /// The bytes of the storage.
    pub fn storage(&self) -> (bytes: &[u8])
        ensures
            bytes@ == self.bytes(),
    {
        self.storage.as_slice()
    }

    /// Zeroes the storage and goes back to step 0.
    pub fn reset(&mut self)
        requires
            old(self).wf(),
        ensures
            final(self).wf(),
            final(self).step() == 0,
            final(self).bytes() == padded_storage(Seq::empty()),
    {
        let mut k: usize = 0;
        while k < STORAGE_SIZE
            invariant
                k <= STORAGE_SIZE,
                self.storage@.len() == STORAGE_SIZE,
                forall|i: int| 0 <= i < k ==> self.storage@[i] == 0,
            decreases STORAGE_SIZE - k,
        {
            self.storage[k] = 0;
            k += 1;
        }
        self.current_step = 0;
        assert(self.storage@ =~= padded_storage(Seq::empty()));
    }

    /// The fee, in basis points, that a reference pool with this storage
    /// charges: the little-endian value of its first two bytes, or 30 where
    /// that is zero.
    pub fn normalizer_fee_bps(&self) -> (fee_bps: u16)
        requires
            self.wf(),
        ensures
            fee_bps == storage_fee_bps(self.bytes()),
            fee_bps != 0,
    {
        fee_bps_from_storage(self.storage.as_slice())
    }

    /// Asks a directly called strategy for a quote against this storage.
    pub fn quote_native<S: Fn(&[u8]) -> u64, A: Fn(&[u8], &mut [u8])>(
        &self,
        executor: &NativeExecutor<S, A>,
        side: u8,
        amount: u64,
        rx: u64,
        ry: u64,
    ) -> (out: u64)
        requires
            self.wf(),
            accepts_frame(executor.swap_fn, quote_frame(side, amount, rx, ry, self.bytes())),
        ensures
            answers(executor.swap_fn, quote_frame(side, amount, rx, ry, self.bytes()), out),
    {
        executor.execute(side, amount, rx, ry, self.storage.as_slice())
    }

    /// Tells a directly called strategy of a trade made at the current
    /// step, and lets its hook, where it has one, rewrite the storage.
    pub fn after_trade_native<S: Fn(&[u8]) -> u64, A: Fn(&[u8], &mut [u8])>(
        &mut self,
        executor: &NativeExecutor<S, A>,
        side: u8,
        input_amount: u64,
        output_amount: u64,
        rx: u64,
        ry: u64,
    )
        requires
            old(self).wf(),
            executor.after_swap_fn is Some ==> accepts_all(executor.after_swap_fn->0),
        ensures
            final(self).wf(),
            final(self).step() == old(self).step(),
            executor.after_swap_fn is None ==> final(self).bytes() == old(self).bytes(),
            executor.after_swap_fn is Some ==> exists|data: &[u8], window: &mut [u8]|
                {
                    &&& data@ == after_swap_frame(
                        side,
                        input_amount,
                        output_amount,
                        rx,
                        ry,
                        old(self).bytes(),
                    )
                    &&& window@ == old(self).bytes()
                    &&& call_ensures(executor.after_swap_fn->0, (data, window), ())
                    &&& final(self).bytes() == with_window(old(self).bytes(), final(window)@)
                },
    {
        let step: u64 = self.current_step;
        executor.execute_after_swap(
            side,
            input_amount,
            output_amount,
            rx,
            ry,
            step,
            self.storage.as_mut_slice(),
        );
    }

    /// Takes over what a sandboxed after-trade run left: where the program
    /// handed over new storage, it replaces the storage; else the storage
    /// stays.
    pub fn accept_update(&mut self, context: &SyscallContext)
        requires
            old(self).wf(),
            context.wf(),
        ensures
            final(self).wf(),
            final(self).step() == old(self).step(),
            final(self).bytes() == if context.storage_updated() {
                context.storage_slot()
            } else {
                old(self).bytes()
            },
    {
        context.apply_storage_update(self.storage.as_mut_slice());
        proof {
            context.lemma_storage_slot_len();
            if context.storage_updated() {
                assert(self.storage@ =~= context.storage_slot());
            }
        }
    }
}

/// What a sandboxed quote run counts for: its answer, or zero where the
/// run failed, so that a strategy that fails earns nothing.
pub fn settled_quote(outcome: Result<u64, ExecutorError>) -> (out: u64)
    ensures
        out == match outcome {
            Ok(answer) => answer,
            Err(_) => 0,
        },
{
    match outcome {
        Ok(answer) => answer,
        Err(_) => 0,
    }
}

/// A fee written into fresh storage as two little-endian bytes is the fee
/// that a reference pool then charges, but for zero, which stands for 30.
pub proof fn lemma_fee_through_storage(fee_bps: u16)
    ensures
        storage_fee_bps(overwritten(padded_storage(Seq::empty()), u16_le(fee_bps))) == if fee_bps
            == 0 {
            30u16
        } else {
            fee_bps
        },
{
    let storage = overwritten(padded_storage(Seq::empty()), u16_le(fee_bps));
    assert(storage.subrange(0, 2) =~= u16_le(fee_bps));
    crate::wire::lemma_u16_le_roundtrip(fee_bps);
}

} // verus!
