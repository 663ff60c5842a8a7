//! Integer core of an AMM strategy evaluation harness: the wire frames that
//! carry quotes across the strategy boundary, the reference constant-product
//! curve with its laws, both ways of calling a strategy, the host side of
//! the sandbox's call interface, the integer screening of sampled curves,
//! the planning of a batch, and the rules that a submitted strategy has to
//! meet.

pub mod amm;
pub mod curve;
pub mod error;
pub mod instruction;
pub mod native;
pub mod normalizer;
pub mod router;
pub mod run;
pub mod sdk;
pub mod search_stats;
pub mod starter;
pub mod submission;
pub mod syscalls;
pub mod validate;
pub mod vm;
pub mod wire;
