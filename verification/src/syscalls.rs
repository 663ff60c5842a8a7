//! The host's side of a sandboxed run: what the program handed back through
//! its host calls, and how much of its compute budget is left.

use crate::error::ExecutorError;
use crate::instruction::{padded_storage, STORAGE_SIZE};
use crate::wire::{get_u64_le, u64_from_le};
use vstd::prelude::*;

verus! {

/// Bytes of the return slot.
pub const RETURN_DATA_SIZE: usize = 8;

/// Budget of a run whose meter is switched off.
pub const UNMETERED_BUDGET: u64 = u64::MAX / 4;

/// Why a host call refused what the program handed it.
#[derive(Clone, Copy, Debug, PartialEq, Eq)]
pub enum SyscallError {
    /// The program offered more bytes than the slot holds.
    TooLong,
}

/// `bytes` zero-filled to the eight bytes of the return slot.
pub open spec fn padded_return(bytes: Seq<u8>) -> Seq<u8> {
    Seq::new(
        RETURN_DATA_SIZE as nat,
        |i: int|
            if i < bytes.len() {
                bytes[i]
            } else {
                0u8
            },
    )
}

/// The budget a run starts with.
pub open spec fn starting_budget(remaining: u64, meter_disabled: bool) -> u64 {
    if meter_disabled {
        UNMETERED_BUDGET
    } else {
        remaining
    }
}

/// The state that one sandboxed run shares with its host calls.
pub struct SyscallContext {
    return_data: [u8; 8],
    has_return_data: bool,
    storage_data: Vec<u8>,
    has_storage_update: bool,
    remaining: u64,
    meter_disabled: bool,
}

impl SyscallContext {
    /// The storage slot always holds exactly 1024 bytes.
    pub closed spec fn wf(&self) -> bool {
        self.storage_data@.len() == STORAGE_SIZE
    }

    /// The eight bytes of the return slot.
    pub closed spec fn return_slot(&self) -> Seq<u8> {
        self.return_data@
    }

    /// Whether the program has set the return slot in this run.
    pub closed spec fn returned(&self) -> bool {
        self.has_return_data
    }

    /// The 1024 bytes of the storage slot.
    pub closed spec fn storage_slot(&self) -> Seq<u8> {
        self.storage_data@
    }

    /// Whether the program has handed over new storage in this run.
    pub closed spec fn storage_updated(&self) -> bool {
        self.has_storage_update
    }

    /// The compute budget that is left.
    pub closed spec fn budget(&self) -> u64 {
        self.remaining
    }

    /// Whether the meter is switched off.
    pub closed spec fn unmetered(&self) -> bool {
        self.meter_disabled
    }

    /// The storage slot has 1024 bytes wherever the context is well formed.
    pub proof fn lemma_storage_slot_len(&self)
        requires
            self.wf(),
        ensures
            self.storage_slot().len() == STORAGE_SIZE,
    {
    }

    /// A context for a fresh run: both slots zeroed and unset, and a budget
    /// of `remaining`, or of a quarter of the 64-bit range where the meter
    /// is switched off.
    pub fn new(remaining: u64, meter_disabled: bool) -> (ctx: Self)
        ensures
            ctx.wf(),
            ctx.return_slot() == padded_return(Seq::empty()),
            !ctx.returned(),
            ctx.storage_slot() == padded_storage(Seq::empty()),
            !ctx.storage_updated(),
            ctx.budget() == starting_budget(remaining, meter_disabled),
            ctx.unmetered() == meter_disabled,
    {
        let ctx = SyscallContext {
            return_data: [0u8; 8],
            has_return_data: false,
            storage_data: vec![0u8; STORAGE_SIZE],
            has_storage_update: false,
            remaining: if meter_disabled {
                UNMETERED_BUDGET
            } else {
                remaining
            },
            meter_disabled,
        };
        assert(ctx.return_data@ =~= padded_return(Seq::empty()));
        assert(ctx.storage_data@ =~= padded_storage(Seq::empty()));
        ctx
    }

    /// Makes the context ready for another run: both slots count as unset
    /// and the budget starts over. The bytes in the slots stay.
    pub fn reset(&mut self, remaining: u64)
        requires
            old(self).wf(),
        ensures
            final(self).wf(),
            !final(self).returned(),
            !final(self).storage_updated(),
            final(self).budget() == starting_budget(remaining, old(self).unmetered()),
            final(self).unmetered() == old(self).unmetered(),
            final(self).return_slot() == old(self).return_slot(),
            final(self).storage_slot() == old(self).storage_slot(),
    {
        self.has_return_data = false;
        self.has_storage_update = false;
        self.remaining = if self.meter_disabled {
            UNMETERED_BUDGET
        } else {
            remaining
        };
    }

    /// Charges `amount` to the budget, which stops at zero. With the meter
    /// switched off nothing is charged.
    pub fn consume(&mut self, amount: u64)
        requires
            old(self).wf(),
        ensures
            final(self).wf(),
            final(self).budget() == if old(self).unmetered() {
                old(self).budget()
            } else if old(self).budget() >= amount {
                (old(self).budget() - amount) as u64
            } else {
                0
            },
            final(self).unmetered() == old(self).unmetered(),
            final(self).returned() == old(self).returned(),
            final(self).storage_updated() == old(self).storage_updated(),
            final(self).return_slot() == old(self).return_slot(),
            final(self).storage_slot() == old(self).storage_slot(),
    {
        if self.meter_disabled {
            return ;
        }
        self.remaining = self.remaining.saturating_sub(amount);
    }

    /// The compute budget that is left.
    pub fn get_remaining(&self) -> (remaining: u64)
        ensures
            remaining == self.budget(),
    {
        self.remaining
    }

    /// Whether the program has set the return slot in this run.
    pub fn has_return_data(&self) -> (set: bool)
        ensures
            set == self.returned(),
    {
        self.has_return_data
    }

    /// Whether the program has handed over new storage in this run.
    pub fn has_storage_update(&self) -> (set: bool)
        ensures
            set == self.storage_updated(),
    {
        self.has_storage_update
    }

    /// The eight bytes of the return slot.
    pub fn return_data(&self) -> (bytes: [u8; 8])
        ensures
            bytes@ == self.return_slot(),
    {
        self.return_data
    }

    /// The 1024 bytes of the storage slot.
    pub fn storage_data(&self) -> (bytes: &[u8])
        ensures
            bytes@ == self.storage_slot(),
    {
        self.storage_data.as_slice()
    }

    /// The host call by which the program returns its answer: up to eight
    /// bytes are taken into the return slot, zero-filled behind them, and
    /// the slot counts as set; a second call overwrites the first. More than
    /// eight bytes are refused and nothing changes.
    pub fn set_return_data(&mut self, bytes: &[u8]) -> (result: Result<(), SyscallError>)
        requires
            old(self).wf(),
        ensures
            final(self).wf(),
            final(self).budget() == old(self).budget(),
            final(self).unmetered() == old(self).unmetered(),
            final(self).storage_slot() == old(self).storage_slot(),
            final(self).storage_updated() == old(self).storage_updated(),
            bytes@.len() <= RETURN_DATA_SIZE ==> result is Ok && final(self).returned()
                && final(self).return_slot() == padded_return(bytes@),
            bytes@.len() > RETURN_DATA_SIZE ==> result == Err::<(), SyscallError>(
                SyscallError::TooLong,
            ) && final(self).returned() == old(self).returned() && final(self).return_slot()
                == old(self).return_slot(),
    {
        let n: usize = bytes.len();
        if n > RETURN_DATA_SIZE {
            return Err(SyscallError::TooLong);
        }
        let mut slot = [0u8; 8];
        let mut k: usize = 0;
        while k < n
            invariant
                k <= n <= RETURN_DATA_SIZE,
                n == bytes@.len(),
                forall|i: int| 0 <= i < k ==> slot@[i] == bytes@[i],
                forall|i: int| k <= i < RETURN_DATA_SIZE ==> slot@[i] == 0,
            decreases n - k,
        {
            slot[k] = bytes[k];
            k += 1;
        }
        assert(slot@ =~= padded_return(bytes@));
        self.return_data = slot;
        self.has_return_data = true;
        Ok(())
    }

    /// The host call by which the program hands over new storage: up to
    /// 1024 bytes are taken into the storage slot, zero-filled behind them,
    /// and the slot counts as updated. More than 1024 bytes are refused and
    /// nothing changes.
    pub fn set_storage(&mut self, bytes: &[u8]) -> (result: Result<(), SyscallError>)
        requires
            old(self).wf(),
        ensures
            final(self).wf(),
            final(self).budget() == old(self).budget(),
            final(self).unmetered() == old(self).unmetered(),
            final(self).return_slot() == old(self).return_slot(),
            final(self).returned() == old(self).returned(),
            bytes@.len() <= STORAGE_SIZE ==> result is Ok && final(self).storage_updated()
                && final(self).storage_slot() == padded_storage(bytes@),
            bytes@.len() > STORAGE_SIZE ==> result == Err::<(), SyscallError>(
                SyscallError::TooLong,
            ) && final(self).storage_updated() == old(self).storage_updated()
                && final(self).storage_slot() == old(self).storage_slot(),
    {
        let n: usize = bytes.len();
        if n > STORAGE_SIZE {
            return Err(SyscallError::TooLong);
        }
        let mut k: usize = 0;
        while k < STORAGE_SIZE
            invariant
                k <= STORAGE_SIZE,
                n <= STORAGE_SIZE,
                n == bytes@.len(),
                self.storage_data@.len() == STORAGE_SIZE,
                self.has_return_data == old(self).has_return_data,
                self.has_storage_update == old(self).has_storage_update,
                self.return_data == old(self).return_data,
                self.remaining == old(self).remaining,
                self.meter_disabled == old(self).meter_disabled,
                forall|i: int| 0 <= i < k ==> self.storage_data@[i] == padded_storage(bytes@)[i],
            decreases STORAGE_SIZE - k,
        {
            let byte: u8 = if k < n {
                bytes[k]
            } else {
                0
            };
            self.storage_data[k] = byte;
            k += 1;
        }
        assert(self.storage_data@ =~= padded_storage(bytes@));
        self.has_storage_update = true;
        Ok(())
    }

    /// The answer of a quote run: the little-endian integer in the return
    /// slot, or `NoReturnData` where the program never set the slot.
    pub fn return_value(&self) -> (result: Result<u64, ExecutorError>)
        requires
            self.wf(),
        ensures
            self.returned() ==> result == Ok::<u64, ExecutorError>(u64_from_le(self.return_slot())),
            !self.returned() ==> result == Err::<u64, ExecutorError>(ExecutorError::NoReturnData),
    {
        if !self.has_return_data {
            return Err(ExecutorError::NoReturnData);
        }
        let value: u64 = get_u64_le(&self.return_data, 0);
        assert(self.return_data@.subrange(0, 8) =~= self.return_data@);
        Ok(value)
    }

    /// Carries a storage update over to the strategy's own storage: where
    /// the program handed over new storage, the first 1024 bytes of
    /// `storage` (all of it, where it is shorter) are overwritten from the
    /// storage slot; else `storage` stays as it was.
    pub fn apply_storage_update(&self, storage: &mut [u8])
        requires
            self.wf(),
        ensures
            final(storage)@.len() == old(storage)@.len(),
            !self.storage_updated() ==> final(storage)@ == old(storage)@,
            self.storage_updated() ==> forall|i: int|
                0 <= i < old(storage)@.len() ==> final(storage)@[i] == if i < STORAGE_SIZE {
                    self.storage_slot()[i]
                } else {
                    old(storage)@[i]
                },
    {
        if !self.has_storage_update {
            return ;
        }
        let n: usize = storage.len();
        let out_len: usize = if n < STORAGE_SIZE {
            n
        } else {
            STORAGE_SIZE
        };
        let mut k: usize = 0;
        while k < out_len
            invariant
                k <= out_len <= STORAGE_SIZE,
                out_len <= n,
                n == storage@.len(),
                n == old(storage)@.len(),
                self.storage_data@.len() == STORAGE_SIZE,
                forall|i: int| 0 <= i < k ==> storage@[i] == self.storage_data@[i],
                forall|i: int| k <= i < n ==> storage@[i] == old(storage)@[i],
            decreases out_len - k,
        {
            storage[k] = self.storage_data[k];
            k += 1;
        }
    }
}

} // verus!
