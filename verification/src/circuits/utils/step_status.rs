//! The machine state before and after a step, as the constraints of an opcode
//! sees it.

use vstd::prelude::*;
use crate::specs::configure_table::ConfigureTable;
use crate::specs::etable::EventTableEntry;

verus! {

/// The machine state a step starts from.
#[derive(Clone, Copy, Debug, PartialEq, Eq, Structural, Hash)]
pub struct Status {
    pub eid: u32,
    pub fid: u32,
    pub iid: u32,
    pub sp: u32,
    pub last_jump_eid: u32,
    pub allocated_memory_pages: u32,
}

impl Status {
    pub open spec fn spec_of(entry: EventTableEntry) -> Status {
        Status {
            eid: entry.eid,
            fid: entry.inst.fid,
            iid: entry.inst.iid,
            sp: entry.sp,
            last_jump_eid: entry.last_jump_eid,
            allocated_memory_pages: entry.allocated_memory_pages,
        }
    }

    /// The state that `entry` starts from.
    #[verifier::when_used_as_spec(spec_of)]
    pub fn of(entry: EventTableEntry) -> (r: Status)
        ensures
            r == Status::spec_of(entry),
    {
        Status {
            eid: entry.eid,
            fid: entry.inst.fid,
            iid: entry.inst.iid,
            sp: entry.sp,
            last_jump_eid: entry.last_jump_eid,
            allocated_memory_pages: entry.allocated_memory_pages,
        }
    }
}

/// What the constraints of an opcode are given to fill in the cells of one
/// step: the state before it, the state after it, and the running indices
/// as they stand before it.
#[derive(Clone, Copy, Debug, PartialEq, Eq, Structural, Hash)]
pub struct StepStatus {
    pub current: Status,
    pub next: Status,
    pub current_external_host_call_index: u32,
    pub configure_table: ConfigureTable,
    pub host_public_inputs: u32,
    pub context_in_index: u32,
    pub context_out_index: u32,
}

} // verus!
