//! What a strategy calls to hand its results to the host.

use crate::instruction::STORAGE_SIZE;
use crate::wire::{put_u64_le, u64_le};
use vstd::prelude::*;

verus! {

/// Why a storage update was refused.
#[derive(Clone, Copy, Debug, PartialEq, Eq)]
pub enum StorageError {
    /// The update is longer than the 1024 bytes of storage.
    TooLarge,
}

/// The eight bytes in which a quote travels back to the host.
pub fn return_bytes(value: u64) -> (bytes: [u8; 8])
    ensures
        bytes@ == u64_le(value),
{
    let mut bytes = [0u8; 8];
    put_u64_le(&mut bytes, 0, value);
    assert(bytes@ =~= bytes@.subrange(0, 8));
    bytes
}

/// Returns a quote to the host, as its eight little-endian bytes.
pub fn set_return_data_u64(value: u64) {
    let bytes = return_bytes(value);
    set_return_data_bytes(&bytes);
}

/// Returns `bytes` to the host through `pinocchio::program::set_return_data`.
/// The call hands nothing back, so nothing is claimed of it: inside the
/// sandbox the bytes reach the host's return slot, outside it they go
/// nowhere.
#[verifier::external_body]
pub fn set_return_data_bytes(bytes: &[u8]) {
    pinocchio::program::set_return_data(bytes);
}

/// Checks a storage update before it goes to the host: one of up to 1024
/// bytes is accepted, a longer one is refused as `TooLarge`.
pub fn set_storage(storage: &[u8]) -> (result: Result<(), StorageError>)
    ensures
        storage@.len() <= STORAGE_SIZE ==> result is Ok,
        storage@.len() > STORAGE_SIZE ==> result == Err::<(), StorageError>(
            StorageError::TooLarge,
        ),
{
    if storage.len() > STORAGE_SIZE {
        return Err(StorageError::TooLarge);
    }
    Ok(())
}

} // verus!
