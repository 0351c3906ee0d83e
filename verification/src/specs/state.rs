//! The counters that carry an execution across a slice boundary.

use vstd::prelude::*;

verus! {

/// The state a slice starts from, or the one it ends in. With `T = u32` the
/// fields hold the values themselves; the circuit holds the same record with
/// one cell per field.
///
/// `jops` is the running total of jump operations and is kept only where an
/// execution may span several slices.
#[derive(Clone, Copy, Debug, PartialEq, Eq, Hash)]
pub struct InitializationState<T> {
    pub eid: T,
    pub fid: T,
    pub iid: T,
    pub frame_id: T,
    pub sp: T,
    pub host_public_inputs: T,
    pub context_in_index: T,
    pub context_out_index: T,
    pub external_host_call_call_index: T,
    pub initial_memory_pages: T,
    pub maximal_memory_pages: T,
    pub jops: Option<T>,
}

} // verus!
