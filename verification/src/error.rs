//! What can go wrong when a sandboxed strategy is loaded or run.

use vstd::prelude::*;

verus! {

/// A failure of the sandbox, with the sandbox's own words where it gave any.
#[derive(Debug)]
pub enum ExecutorError {
    /// The program image could not be read or its host calls not bound.
    ElfLoad(String),
    /// The program image was read and then refused.
    Verification(String),
    /// The program could not be compiled to machine code.
    JitCompilation(String),
    /// A run ended in an error, the compute budget running out among them.
    Execution(String),
    /// A quote run ended without the program having returned anything.
    NoReturnData,
    /// The program gave up of its own accord.
    Aborted,
}

} // verus!
