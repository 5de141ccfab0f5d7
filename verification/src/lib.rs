//! A build-time benchmarking harness core: phase-marker parsing and the
//! per-benchmark state machine that turns a child compiler's marker lines
//! into timed phases, resource frames and a final record.

use vstd::prelude::*;

pub mod benchmark;
pub mod discovery;
pub mod frame;
pub mod marker;

verus! {

/// Nanoseconds of elapsed time since the program's epoch instant.
pub type TimeNs = u64;

} // verus!
