//! The event table of the circuit: what every opcode tells the table about
//! one of its steps, and the chip that lays the steps out.

use vstd::prelude::*;
use crate::runtime::binary_events;
use crate::runtime::branch_if_events;
use crate::runtime::call_host_events;
use crate::runtime::keep_events;
use crate::runtime::load_events;
use crate::runtime::memory_events;
use crate::runtime::move_events;
use crate::runtime::push_events;
use crate::runtime::select_events;
use crate::runtime::store_events;
use crate::runtime::unary_events;
use crate::specs::etable::EventTableEntry;
use crate::specs::host_function::ExternalHostCallSignature;
use crate::specs::host_function::HostPlugin;
use crate::specs::host_function::CONTEXT_OP_READ;
use crate::specs::host_function::CONTEXT_OP_WRITE;
use crate::specs::host_function::HOST_INPUT_OP_INPUT;
use crate::specs::host_function::HOST_INPUT_OP_OUTPUT;
use crate::specs::mtable::count_writes;
use crate::specs::mtable::AccessType;
use crate::specs::mtable::MemoryTableEntry;
use crate::specs::mtable::VarType;
use crate::specs::mtable::group_count_writes;
use crate::specs::step::StepInfo;
use crate::specs::step::TypedValue;

pub mod assign;

verus! {

/// Number of circuit rows that one step occupies.
pub const EVENT_TABLE_ENTRY_ROWS: usize = 4;

/// How many memory-writing operations the step performs: the writes among
/// the memory accesses it implies.
pub open spec fn spec_memory_writing_ops(entry: EventTableEntry) -> nat {
    count_writes(memory_events(entry))
}

/// How many jump operations the step performs: one for a call and one for a
/// return.
pub open spec fn spec_jops(entry: EventTableEntry) -> nat {
    match entry.step_info {
        StepInfo::Call { .. } => 1,
        StepInfo::CallIndirect { .. } => 1,
        StepInfo::Return { .. } => 1,
        _ => 0,
    }
}

/// Whether the step consumes a public input or produces a public output.
pub open spec fn spec_is_host_public_input(entry: EventTableEntry) -> bool {
    match entry.step_info {
        StepInfo::CallHost { plugin, op_index_in_plugin, arg, .. } => {
            &&& plugin == HostPlugin::HostInput
            &&& {
                ||| op_index_in_plugin == HOST_INPUT_OP_OUTPUT
                ||| op_index_in_plugin == HOST_INPUT_OP_INPUT && arg is Some && arg->0.value != 0
            }
        },
        _ => false,
    }
}

/// Whether the step reads the next context input.
pub open spec fn spec_is_context_input_op(entry: EventTableEntry) -> bool {
    match entry.step_info {
        StepInfo::CallHost { plugin, op_index_in_plugin, .. } => plugin == HostPlugin::Context
            && op_index_in_plugin == CONTEXT_OP_READ,
        _ => false,
    }
}

/// Whether the step writes the next context output.
pub open spec fn spec_is_context_output_op(entry: EventTableEntry) -> bool {
    match entry.step_info {
        StepInfo::CallHost { plugin, op_index_in_plugin, .. } => plugin == HostPlugin::Context
            && op_index_in_plugin == CONTEXT_OP_WRITE,
        _ => false,
    }
}

/// Whether the step is one step of an external host call.
pub open spec fn spec_is_external_host_call(entry: EventTableEntry) -> bool {
    entry.step_info is ExternalHostCall
}

/// The quantities that the event table accumulates from step to step.
#[derive(Clone, Copy, Debug, PartialEq, Eq, Structural, Hash)]
pub enum Counter {
    MemoryWritingOps,
    JumpOps,
    HostPublicInputs,
    ContextInputs,
    ContextOutputs,
    ExternalHostCalls,
}

/// What one step adds to a counter.
pub open spec fn weight(counter: Counter, entry: EventTableEntry) -> nat {
    match counter {
        Counter::MemoryWritingOps => spec_memory_writing_ops(entry),
        Counter::JumpOps => spec_jops(entry),
        Counter::HostPublicInputs => if spec_is_host_public_input(entry) {
            1
        } else {
            0
        },
        Counter::ContextInputs => if spec_is_context_input_op(entry) {
            1
        } else {
            0
        },
        Counter::ContextOutputs => if spec_is_context_output_op(entry) {
            1
        } else {
            0
        },
        Counter::ExternalHostCalls => if spec_is_external_host_call(entry) {
            1
        } else {
            0
        },
    }
}

/// What the steps before step `i` add to a counter.
pub open spec fn total_before(counter: Counter, events: Seq<EventTableEntry>, i: int) -> nat
    decreases i,
{
    if i <= 0 {
        0
    } else {
        total_before(counter, events, i - 1) + weight(counter, events[i - 1])
    }
}

/// What step `i` and the steps after it add to a counter.
pub open spec fn total_from(counter: Counter, events: Seq<EventTableEntry>, i: int) -> nat
    decreases events.len() - i,
{
    if i >= events.len() {
        0
    } else {
        weight(counter, events[i]) + total_from(counter, events, i + 1)
    }
}

/// What all steps add to a counter.
pub open spec fn total(counter: Counter, events: Seq<EventTableEntry>) -> nat {
    total_from(counter, events, 0)
}

/// The steps before `i` and the steps from `i` on make up the whole.
pub proof fn lemma_total_split(counter: Counter, events: Seq<EventTableEntry>, i: int)
    requires
        0 <= i <= events.len(),
    ensures
        total_before(counter, events, i) + total_from(counter, events, i) == total(counter, events),
    decreases i,
{
    if i > 0 {
        lemma_total_split(counter, events, i - 1);
    }
}

/// What a step and the steps after it add to a counter is what the step
/// adds and what the steps after it add, and no more than all steps add.
pub proof fn lemma_total_from_step(counter: Counter, events: Seq<EventTableEntry>, i: int)
    requires
        0 <= i < events.len(),
    ensures
        total_from(counter, events, i) == weight(counter, events[i]) + total_from(
            counter,
            events,
            i + 1,
        ),
        total_from(counter, events, i) <= total(counter, events),
{
    lemma_total_split(counter, events, i);
}

/// No step adds more than 2 to a counter, so no counter outgrows twice the
/// number of steps.
pub proof fn lemma_total_bound(counter: Counter, events: Seq<EventTableEntry>, i: int)
    requires
        0 <= i <= events.len(),
    ensures
        total_before(counter, events, i) <= 2 * i,
        counter != Counter::MemoryWritingOps ==> total_before(counter, events, i) <= i,
    decreases i,
{
    if i > 0 {
        lemma_total_bound(counter, events, i - 1);
        lemma_weight_bound(counter, events[i - 1]);
    }
}

/// No step adds more than 2 to a counter, and more than 1 only to the count
/// of memory-writing operations.
pub proof fn lemma_weight_bound(counter: Counter, entry: EventTableEntry)
    ensures
        weight(counter, entry) <= 2,
        counter != Counter::MemoryWritingOps ==> weight(counter, entry) <= 1,
{
    if counter == Counter::MemoryWritingOps {
        lemma_memory_writing_ops_bound(entry);
    }
}

/// How many writes a branch or a return makes: one where it keeps a value.
fn kept(keep: Option<TypedValue>) -> (r: u32)
    ensures
        r <= 1,
        forall|eid: u32, top: int, drop: u32| #[trigger]
            count_writes(keep_events(eid, top, drop, keep)) == r,
{
    broadcast use group_count_writes;

    match keep {
        Some(_) => 1,
        None => 0,
    }
}

/// How many writes a conditional branch makes: one where it jumps and keeps
/// a value.
fn kept_if(jumps: bool, keep: Option<TypedValue>) -> (r: u32)
    ensures
        r <= 1,
        forall|eid: u32, sp: u32, condition: u32, drop: u32| #[trigger]
            count_writes(branch_if_events(eid, sp, condition, jumps, drop, keep)) == r,
{
    broadcast use group_count_writes;

    if jumps {
        kept(keep)
    } else {
        0
    }
}

/// The steps that end in pushing or replacing one value write once.
proof fn lemma_one_write_shapes()
    ensures
        forall|eid: u32, sp: u32, a: u64, b: u64, c: u64, d: u64, v: VarType| #[trigger]
            count_writes(select_events(eid, sp, a, b, c, d, v)) == 1,
        forall|eid: u32, from: int, to: int, v: VarType, value: u64| #[trigger]
            count_writes(move_events(eid, from, to, v, value)) == 1,
        forall|eid: u32, sp: u32, v: VarType, value: u64| #[trigger]
            count_writes(push_events(eid, sp, v, value)) == 1,
        forall|
            eid: u32,
            sp: u32,
            i: VarType,
            o: VarType,
            a: u64,
            b: u64,
        | #[trigger] count_writes(unary_events(eid, sp, i, o, a, b)) == 1,
        forall|
            eid: u32,
            sp: u32,
            i: VarType,
            o: VarType,
            a: u64,
            b: u64,
            c: u64,
        | #[trigger] count_writes(binary_events(eid, sp, i, o, a, b, c)) == 1,
        forall|
            eid: u32,
            sp: u32,
            v: VarType,
            size: u32,
            raw: u32,
            ea: u32,
            value: u64,
            b1: u64,
            b2: u64,
        | #[trigger] count_writes(load_events(eid, sp, v, size, raw, ea, value, b1, b2)) == 1,
{
    broadcast use group_count_writes;

}

/// A store writes one block, or two where it crosses into the next.
proof fn lemma_store_writes(
    eid: u32,
    sp: u32,
    v: VarType,
    size: u32,
    raw: u32,
    ea: u32,
    value: u64,
    pre1: u64,
    upd1: u64,
    pre2: u64,
    upd2: u64,
)
    ensures
        count_writes(store_events(eid, sp, v, size, raw, ea, value, pre1, upd1, pre2, upd2)) == if ea % 8
            + size > 8 {
            2nat
        } else {
            1nat
        },
{
    broadcast use group_count_writes;

}

/// A host call writes once where it returns a value.
proof fn lemma_call_host_writes(eid: u32, sp: u32, arg: Option<TypedValue>, ret: Option<TypedValue>)
    ensures
        count_writes(call_host_events(eid, sp, arg, ret)) == if ret is Some {
            1nat
        } else {
            0nat
        },
{
    broadcast use group_count_writes;

}

/// A step writes memory at most twice.
#[verifier::rlimit(100)]
pub proof fn lemma_memory_writing_ops_bound(entry: EventTableEntry)
    ensures
        spec_memory_writing_ops(entry) <= 2,
{
    lemma_one_write_shapes();
    lemma_count_writes_small();
    match entry.step_info {
        StepInfo::Br { keep, .. } => {
            broadcast use group_count_writes;

        },
        StepInfo::BrIfEqz { keep, .. } => {
            broadcast use group_count_writes;

        },
        StepInfo::BrIfNez { keep, .. } => {
            broadcast use group_count_writes;

        },
        StepInfo::BrTable { keep, .. } => {
            broadcast use group_count_writes;

        },
        StepInfo::Return { keep, .. } => {
            broadcast use group_count_writes;

        },
        StepInfo::CallHost { arg, ret, .. } => {
            lemma_call_host_writes(entry.eid, entry.sp, arg, ret);
        },
        StepInfo::Store {
            vtype,
            store_size,
            raw_address,
            effective_address,
            pre_block_value1,
            updated_block_value1,
            pre_block_value2,
            updated_block_value2,
            value,
            ..
        } => {
            lemma_store_writes(
                entry.eid,
                entry.sp,
                vtype,
                store_size.spec_byte_size(),
                raw_address,
                effective_address,
                value,
                pre_block_value1,
                updated_block_value1,
                pre_block_value2,
                updated_block_value2,
            );
        },
        _ => {},
    }
}

/// How many memory-writing operations the step performs.
#[verifier::rlimit(100)]
pub fn memory_writing_ops(entry: &EventTableEntry) -> (r: u32)
    ensures
        r == spec_memory_writing_ops(*entry),
        r <= 2,
{
    proof {
        lemma_one_write_shapes();
        lemma_count_writes_small();
    }
    match entry.step_info {
        StepInfo::Br { keep, .. } => kept(keep),
        StepInfo::BrIfEqz { condition, keep, .. } => kept_if(condition == 0, keep),
        StepInfo::BrIfNez { condition, keep, .. } => kept_if(condition != 0, keep),
        StepInfo::BrTable { keep, .. } => kept_if(true, keep),
        StepInfo::Return { keep, .. } => kept(keep),
        StepInfo::Drop => 0,
        StepInfo::Call { .. } => 0,
        StepInfo::CallIndirect { .. } => 0,
        StepInfo::CallHost { arg, ret, .. } => {
            proof {
                lemma_call_host_writes(entry.eid, entry.sp, arg, ret);
            }
            if ret.is_some() {
                1
            } else {
                0
            }
        },
        StepInfo::ExternalHostCall { sig, .. } => match sig {
            ExternalHostCallSignature::Argument => 0,
            ExternalHostCallSignature::Return => 1,
        },
        StepInfo::Store {
            vtype,
            store_size,
            raw_address,
            effective_address,
            pre_block_value1,
            updated_block_value1,
            pre_block_value2,
            updated_block_value2,
            value,
            ..
        } => {
            proof {
                lemma_store_writes(
                    entry.eid,
                    entry.sp,
                    vtype,
                    store_size.spec_byte_size(),
                    raw_address,
                    effective_address,
                    value,
                    pre_block_value1,
                    updated_block_value1,
                    pre_block_value2,
                    updated_block_value2,
                );
            }
            if effective_address % 8 + store_size.byte_size() > 8 {
                2
            } else {
                1
            }
        },
        StepInfo::Unreachable => 0,
        _ => 1,
    }
}

/// The writes among no, one and two accesses.
proof fn lemma_count_writes_small()
    ensures
        count_writes(Seq::empty()) == 0,
        forall|a: MemoryTableEntry| #[trigger]
            count_writes(Seq::empty().push(a)) == if a.atype
                == AccessType::Write {
                1nat
            } else {
                0nat
            },
        forall|a: MemoryTableEntry, b: MemoryTableEntry| #[trigger]
            count_writes(Seq::empty().push(a).push(b)) == (if a.atype
                == AccessType::Write {
                1nat
            } else {
                0nat
            }) + (if b.atype == AccessType::Write {
                1nat
            } else {
                0nat
            }),
{
    broadcast use group_count_writes;

}

/// How many jump operations the step performs.
pub fn jops(entry: &EventTableEntry) -> (r: u32)
    ensures
        r == spec_jops(*entry),
        r <= 1,
{
    match entry.step_info {
        StepInfo::Call { .. } => 1,
        StepInfo::CallIndirect { .. } => 1,
        StepInfo::Return { .. } => 1,
        _ => 0,
    }
}

/// Whether the step consumes a public input or produces a public output.
pub fn is_host_public_input(entry: &EventTableEntry) -> (r: bool)
    ensures
        r == spec_is_host_public_input(*entry),
{
    match entry.step_info {
        StepInfo::CallHost { plugin, op_index_in_plugin, arg, .. } => {
            plugin == HostPlugin::HostInput && (op_index_in_plugin == HOST_INPUT_OP_OUTPUT || (
            op_index_in_plugin == HOST_INPUT_OP_INPUT && match arg {
                Some(a) => a.value != 0,
                None => false,
            }))
        },
        _ => false,
    }
}

/// Whether the step reads the next context input.
pub fn is_context_input_op(entry: &EventTableEntry) -> (r: bool)
    ensures
        r == spec_is_context_input_op(*entry),
{
    match entry.step_info {
        StepInfo::CallHost { plugin, op_index_in_plugin, .. } => plugin == HostPlugin::Context
            && op_index_in_plugin == CONTEXT_OP_READ,
        _ => false,
    }
}

/// Whether the step writes the next context output.
pub fn is_context_output_op(entry: &EventTableEntry) -> (r: bool)
    ensures
        r == spec_is_context_output_op(*entry),
{
    match entry.step_info {
        StepInfo::CallHost { plugin, op_index_in_plugin, .. } => plugin == HostPlugin::Context
            && op_index_in_plugin == CONTEXT_OP_WRITE,
        _ => false,
    }
}

/// Whether the step is one step of an external host call.
pub fn is_external_host_call(entry: &EventTableEntry) -> (r: bool)
    ensures
        r == spec_is_external_host_call(*entry),
{
    match entry.step_info {
        StepInfo::ExternalHostCall { .. } => true,
        _ => false,
    }
}

} // verus!
