//! A strategy that is called directly, as a pair of Rust functions.

use crate::instruction::{
    after_swap_frame, encode_after_swap, encode_swap_instruction, quote_frame, STORAGE_SIZE,
};
use vstd::prelude::*;

verus! {

/// Whether the quote function `swap_fn` can be called on every buffer that
/// holds `frame`.
pub open spec fn accepts_frame<S: Fn(&[u8]) -> u64>(swap_fn: S, frame: Seq<u8>) -> bool {
    forall|data: &[u8]| data@ == frame ==> call_requires(swap_fn, (data,))
}

/// Whether `out` is an answer that the quote function `swap_fn` can give to
/// `frame`.
pub open spec fn answers<S: Fn(&[u8]) -> u64>(swap_fn: S, frame: Seq<u8>, out: u64) -> bool {
    exists|data: &[u8]| data@ == frame && call_ensures(swap_fn, (data,), out)
}

/// Whether the hook `after_swap_fn` can be called on every frame and every
/// storage window.
pub open spec fn accepts_all<A: Fn(&[u8], &mut [u8])>(after_swap_fn: A) -> bool {
    forall|data: &[u8], window: &mut [u8]| call_requires(after_swap_fn, (data, window))
}

/// The part of a storage buffer that a hook gets to see: its first 1024
/// bytes.
pub open spec fn storage_window(storage: Seq<u8>) -> Seq<u8> {
    if storage.len() < STORAGE_SIZE {
        storage
    } else {
        storage.take(STORAGE_SIZE as int)
    }
}

/// `storage` with its window replaced by what the hook left there.
pub open spec fn with_window(storage: Seq<u8>, window: Seq<u8>) -> Seq<u8> {
    Seq::new(
        storage.len(),
        |i: int|
            if i < window.len() && i < STORAGE_SIZE {
                window[i]
            } else {
                storage[i]
            },
    )
}

/// A strategy called directly: a quote function and, where the strategy
/// keeps state, an after-trade hook.
#[derive(Clone)]
pub struct NativeExecutor<S, A> {
    pub swap_fn: S,
    pub after_swap_fn: Option<A>,
}

impl<S: Fn(&[u8]) -> u64, A: Fn(&[u8], &mut [u8])> NativeExecutor<S, A> {
    /// An executor for the given quote function and hook.
    pub fn new(swap_fn: S, after_swap_fn: Option<A>) -> (executor: Self)
        ensures
            executor.swap_fn == swap_fn,
            executor.after_swap_fn == after_swap_fn,
    {
        NativeExecutor { swap_fn, after_swap_fn }
    }

    /// Asks the strategy for a quote: builds the quote frame for the given
    /// fields and hands it to the quote function, whose answer is returned
    /// as it is.
    pub fn execute(&self, side: u8, amount: u64, rx: u64, ry: u64, storage: &[u8]) -> (out: u64)
        requires
            accepts_frame(self.swap_fn, quote_frame(side, amount, rx, ry, storage@)),
        ensures
            answers(self.swap_fn, quote_frame(side, amount, rx, ry, storage@), out),
    {
        let data = encode_swap_instruction(side, amount, rx, ry, storage);
        (self.swap_fn)(data.as_slice())
    }

    /// Tells the strategy of a trade. Without a hook nothing happens. With
    /// one, the hook gets the after-trade frame built from the given fields
    /// and the storage as it stands, and a window on the first 1024 bytes of
    /// `storage` to rewrite; the rest of `storage` is out of its reach. The
    /// frame has no field for `step`, which is not passed on.
    pub fn execute_after_swap(
        &self,
        side: u8,
        input_amount: u64,
        output_amount: u64,
        rx: u64,
        ry: u64,
        step: u64,
        storage: &mut [u8],
    )
        requires
            self.after_swap_fn is Some ==> accepts_all(self.after_swap_fn->0),
        ensures
            final(storage)@.len() == old(storage)@.len(),
            self.after_swap_fn is None ==> final(storage)@ == old(storage)@,
            self.after_swap_fn is Some ==> exists|data: &[u8], window: &mut [u8]|
                {
                    &&& data@ == after_swap_frame(
                        side,
                        input_amount,
                        output_amount,
                        rx,
                        ry,
                        old(storage)@,
                    )
                    &&& window@ == storage_window(old(storage)@)
                    &&& call_ensures(self.after_swap_fn->0, (data, window), ())
                    &&& final(storage)@ == with_window(old(storage)@, final(window)@)
                },
    {
        let n: usize = storage.len();
        match &self.after_swap_fn {
            Some(after_swap) => {
                let data = encode_after_swap(side, input_amount, output_amount, rx, ry, storage);
                let copy_len: usize = if n < STORAGE_SIZE {
                    n
                } else {
                    STORAGE_SIZE
                };
                let mut window: Vec<u8> = Vec::with_capacity(copy_len);
                let mut k: usize = 0;
                while k < copy_len
                    invariant
                        k <= copy_len <= n,
                        n == storage@.len(),
                        window@ == storage@.take(k as int),
                    decreases copy_len - k,
                {
                    window.push(storage[k]);
                    assert(window@ =~= storage@.take(k + 1));
                    k += 1;
                }
                assert(window@ =~= storage_window(old(storage)@));
                after_swap(data.as_slice(), window.as_mut_slice());
                let m: usize = if window.len() < copy_len {
                    window.len()
                } else {
                    copy_len
                };
                let mut j: usize = 0;
                while j < m
                    invariant
                        j <= m <= copy_len,
                        m <= window@.len(),
                        copy_len <= n,
                        n == storage@.len(),
                        forall|i: int| 0 <= i < j ==> storage@[i] == window@[i],
                        forall|i: int| j <= i < n ==> storage@[i] == old(storage)@[i],
                    decreases m - j,
                {
                    storage[j] = window[j];
                    j += 1;
                }
                assert(storage@ =~= with_window(old(storage)@, window@));
            },
            None => {},
        }
    }
}

} // verus!
