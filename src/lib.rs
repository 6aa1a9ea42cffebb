//! Node-side runtime state of a dataflow node: output validation, the
//! shared-memory reuse cache, the drop-token tracker and the shutdown drain.

pub mod cache;
pub mod ids;
pub mod node;
pub mod sample;
pub mod shm;
pub mod tracker;

use vstd::prelude::*;

verus! {

/// Samples of at least this many bytes are placed in shared memory; smaller
/// ones travel inline in the control message.
pub const ZERO_COPY_THRESHOLD: usize = 4096;

/// Number of free shared-memory regions kept for reuse.
pub const MAX_CACHE_SIZE: usize = 20;

} // verus!
