//! From executed steps to memory accesses.
//!
//! The stack grows towards smaller offsets: `sp` is the first free slot, the
//! top value lies at `sp + 1`. The heap is addressed in blocks of 8 bytes.

use vstd::prelude::*;
use crate::specs::etable::EventTableEntry;
use crate::specs::host_function::ExternalHostCallSignature;
use crate::specs::mtable::ops_in_step_order;
use crate::specs::mtable::AccessType;
use crate::specs::mtable::LocationType;
use crate::specs::mtable::MTable;
use crate::specs::mtable::MemoryTableEntry;
use crate::specs::mtable::VarType;
use crate::specs::step::StepInfo;
use crate::specs::step::TypedValue;

pub mod tracer;
pub mod wasmi_interpreter;

verus! {

/// A read of stack slot `offset`.
pub open spec fn stack_read(eid: u32, offset: int, vtype: VarType, value: u64) -> MemoryTableEntry {
    MemoryTableEntry {
        eid,
        offset: offset as u32,
        ltype: LocationType::Stack,
        atype: AccessType::Read,
        vtype,
        is_mutable: true,
        value,
    }
}

/// A write of stack slot `offset`.
pub open spec fn stack_write(eid: u32, offset: int, vtype: VarType, value: u64) -> MemoryTableEntry {
    MemoryTableEntry {
        eid,
        offset: offset as u32,
        ltype: LocationType::Stack,
        atype: AccessType::Write,
        vtype,
        is_mutable: true,
        value,
    }
}

/// An access to heap block `block`.
pub open spec fn heap_access(eid: u32, block: int, atype: AccessType, value: u64) -> MemoryTableEntry {
    MemoryTableEntry {
        eid,
        offset: block as u32,
        ltype: LocationType::Heap,
        atype,
        vtype: VarType::I64,
        is_mutable: true,
        value,
    }
}

/// An access to global `idx`.
pub open spec fn global_access(
    eid: u32,
    idx: u32,
    atype: AccessType,
    vtype: VarType,
    is_mutable: bool,
    value: u64,
) -> MemoryTableEntry {
    MemoryTableEntry { eid, offset: idx, ltype: LocationType::Global, atype, vtype, is_mutable, value }
}

/// Whether an access of `size` bytes at `address` reaches into the block
/// after the one that holds `address`.
pub open spec fn crosses_block(address: u32, size: u32) -> bool {
    address % 8 + size > 8
}

/// What a branch or a return does to the value it keeps: it reads it from
/// the top of the stack, at `top`, and writes it `drop` slots further up.
pub open spec fn keep_events(eid: u32, top: int, drop: u32, keep: Option<TypedValue>) -> Seq<
    MemoryTableEntry,
> {
    match keep {
        Some(kept) => Seq::empty().push(
            stack_read(eid, top, VarType::of(kept.vtype), kept.value),
        ).push(stack_write(eid, top + drop, VarType::of(kept.vtype), kept.value)),
        None => Seq::empty(),
    }
}

/// What a step does to the stack when it pops one operand and pushes one
/// result.
pub open spec fn unary_events(
    eid: u32,
    sp: u32,
    input: VarType,
    output: VarType,
    operand: u64,
    result: u64,
) -> Seq<MemoryTableEntry> {
    Seq::empty().push(stack_read(eid, sp + 1, input, operand)).push(
        stack_write(eid, sp + 1, output, result),
    )
}

/// What a step does to the stack when it pops two operands, the right one
/// first, and pushes one result.
pub open spec fn binary_events(
    eid: u32,
    sp: u32,
    input: VarType,
    output: VarType,
    left: u64,
    right: u64,
    result: u64,
) -> Seq<MemoryTableEntry> {
    Seq::empty().push(stack_read(eid, sp + 1, input, right)).push(
        stack_read(eid, sp + 2, input, left),
    ).push(stack_write(eid, sp + 2, output, result))
}

/// A conditional branch: it reads the condition and, where it jumps, moves
/// the value it keeps.
pub open spec fn branch_if_events(
    eid: u32,
    sp: u32,
    condition: u32,
    jumps: bool,
    drop: u32,
    keep: Option<TypedValue>,
) -> Seq<MemoryTableEntry> {
    let ops = Seq::empty().push(stack_read(eid, sp + 1, VarType::I32, condition as u64));
    if jumps {
        ops + keep_events(eid, sp + 2, drop, keep)
    } else {
        ops
    }
}

pub open spec fn select_events(
    eid: u32,
    sp: u32,
    val1: u64,
    val2: u64,
    cond: u64,
    result: u64,
    vtype: VarType,
) -> Seq<MemoryTableEntry> {
    Seq::empty().push(stack_read(eid, sp + 1, VarType::I32, cond)).push(
        stack_read(eid, sp + 2, vtype, val2),
    ).push(stack_read(eid, sp + 3, vtype, val1)).push(stack_write(eid, sp + 3, vtype, result))
}

/// An internal host call: it pops its argument, if it takes one, and pushes
/// its result, if it returns one.
pub open spec fn call_host_events(
    eid: u32,
    sp: u32,
    arg: Option<TypedValue>,
    ret: Option<TypedValue>,
) -> Seq<MemoryTableEntry> {
    let reads = match arg {
        Some(a) => Seq::empty().push(stack_read(eid, sp + 1, VarType::of(a.vtype), a.value)),
        None => Seq::empty(),
    };
    let top = if arg is Some {
        sp + 1
    } else {
        sp as int
    };
    match ret {
        Some(r) => reads.push(stack_write(eid, top, VarType::of(r.vtype), r.value)),
        None => reads,
    }
}

/// A step that reads one stack slot and writes another.
pub open spec fn move_events(eid: u32, from: int, to: int, vtype: VarType, value: u64) -> Seq<
    MemoryTableEntry,
> {
    Seq::empty().push(stack_read(eid, from, vtype, value)).push(stack_write(eid, to, vtype, value))
}

/// A step that pushes one value.
pub open spec fn push_events(eid: u32, sp: u32, vtype: VarType, value: u64) -> Seq<MemoryTableEntry> {
    Seq::empty().push(stack_write(eid, sp as int, vtype, value))
}

pub open spec fn load_events(
    eid: u32,
    sp: u32,
    vtype: VarType,
    size: u32,
    raw_address: u32,
    effective_address: u32,
    value: u64,
    block_value1: u64,
    block_value2: u64,
) -> Seq<MemoryTableEntry> {
    let ops = Seq::empty().push(stack_read(eid, sp + 1, VarType::I32, raw_address as u64)).push(
        heap_access(eid, (effective_address / 8) as int, AccessType::Read, block_value1),
    );
    let ops = if crosses_block(effective_address, size) {
        ops.push(heap_access(eid, effective_address / 8 + 1, AccessType::Read, block_value2))
    } else {
        ops
    };
    ops.push(stack_write(eid, sp + 1, vtype, value))
}

pub open spec fn store_events(
    eid: u32,
    sp: u32,
    vtype: VarType,
    size: u32,
    raw_address: u32,
    effective_address: u32,
    value: u64,
    pre_block_value1: u64,
    updated_block_value1: u64,
    pre_block_value2: u64,
    updated_block_value2: u64,
) -> Seq<MemoryTableEntry> {
    let ops = Seq::empty().push(stack_read(eid, sp + 1, vtype, value)).push(
        stack_read(eid, sp + 2, VarType::I32, raw_address as u64),
    ).push(heap_access(eid, (effective_address / 8) as int, AccessType::Read, pre_block_value1)).push(
        heap_access(eid, (effective_address / 8) as int, AccessType::Write, updated_block_value1),
    );
    if crosses_block(effective_address, size) {
        ops.push(
            heap_access(eid, effective_address / 8 + 1, AccessType::Read, pre_block_value2),
        ).push(heap_access(eid, effective_address / 8 + 1, AccessType::Write, updated_block_value2))
    } else {
        ops
    }
}

/// The value by which the stack holds a truth value.
pub open spec fn truth(value: bool) -> u64 {
    if value {
        1
    } else {
        0
    }
}

/// The memory accesses that a step implies, in the order in which the memory
/// table lists them.
pub open spec fn memory_events(event: EventTableEntry) -> Seq<MemoryTableEntry> {
    let eid = event.eid;
    let sp = event.sp;
    let i32t = VarType::I32;
    let i64t = VarType::I64;
    match event.step_info {
        StepInfo::Br { drop, keep, .. } => keep_events(eid, sp + 1, drop, keep),
        StepInfo::BrIfEqz { condition, drop, keep, .. } => branch_if_events(
            eid,
            sp,
            condition,
            condition == 0,
            drop,
            keep,
        ),
        StepInfo::BrIfNez { condition, drop, keep, .. } => branch_if_events(
            eid,
            sp,
            condition,
            condition != 0,
            drop,
            keep,
        ),
        StepInfo::BrTable { index, drop, keep, .. } => branch_if_events(
            eid,
            sp,
            index,
            true,
            drop,
            keep,
        ),
        StepInfo::Return { drop, keep } => keep_events(eid, sp + 1, drop, keep),
        StepInfo::Drop => Seq::empty(),
        StepInfo::Select { val1, val2, cond, result, vtype } => select_events(
            eid,
            sp,
            val1,
            val2,
            cond,
            result,
            vtype,
        ),
        StepInfo::Call { .. } => Seq::empty(),
        StepInfo::CallIndirect { offset, .. } => Seq::empty().push(
            stack_read(eid, sp + 1, i32t, offset as u64),
        ),
        StepInfo::CallHost { arg, ret, .. } => call_host_events(eid, sp, arg, ret),
        StepInfo::ExternalHostCall { value, sig, .. } => match sig {
            ExternalHostCallSignature::Argument => Seq::empty().push(
                stack_read(eid, sp + 1, i64t, value),
            ),
            ExternalHostCallSignature::Return => push_events(eid, sp, i64t, value),
        },
        StepInfo::GetLocal { vtype, depth, value } => move_events(
            eid,
            sp + depth,
            sp as int,
            vtype,
            value,
        ),
        StepInfo::SetLocal { vtype, depth, value } => move_events(
            eid,
            sp + 1,
            sp + 1 + depth,
            vtype,
            value,
        ),
        StepInfo::TeeLocal { vtype, depth, value } => move_events(
            eid,
            sp + 1,
            sp + depth,
            vtype,
            value,
        ),
        StepInfo::GetGlobal { idx, vtype, is_mutable, value } => Seq::empty().push(
            global_access(eid, idx, AccessType::Read, vtype, is_mutable, value),
        ).push(stack_write(eid, sp as int, vtype, value)),
        StepInfo::SetGlobal { idx, vtype, is_mutable, value } => Seq::empty().push(
            stack_read(eid, sp + 1, vtype, value),
        ).push(global_access(eid, idx, AccessType::Write, vtype, is_mutable, value)),
        StepInfo::Load {
            vtype,
            load_size,
            raw_address,
            effective_address,
            value,
            block_value1,
            block_value2,
            ..
        } => load_events(
            eid,
            sp,
            vtype,
            load_size.spec_byte_size(),
            raw_address,
            effective_address,
            value,
            block_value1,
            block_value2,
        ),
        StepInfo::Store {
            vtype,
            store_size,
            raw_address,
            effective_address,
            pre_block_value1,
            updated_block_value1,
            pre_block_value2,
            updated_block_value2,
            value,
            ..
        } => store_events(
            eid,
            sp,
            vtype,
            store_size.spec_byte_size(),
            raw_address,
            effective_address,
            value,
            pre_block_value1,
            updated_block_value1,
            pre_block_value2,
            updated_block_value2,
        ),
        StepInfo::MemorySize => push_events(eid, sp, i32t, event.allocated_memory_pages as u64),
        StepInfo::MemoryGrow { grow_size, result } => unary_events(
            eid,
            sp,
            i32t,
            i32t,
            grow_size as u64,
            result as u64,
        ),
        StepInfo::I32Const { value } => push_events(eid, sp, i32t, value as u64),
        StepInfo::I64Const { value } => push_events(eid, sp, i64t, value),
        StepInfo::I32BinOp { left, right, value, .. } => binary_events(
            eid,
            sp,
            i32t,
            i32t,
            left as u64,
            right as u64,
            value as u64,
        ),
        StepInfo::I32BinShiftOp { left, right, value, .. } => binary_events(
            eid,
            sp,
            i32t,
            i32t,
            left as u64,
            right as u64,
            value as u64,
        ),
        StepInfo::I32BinBitOp { left, right, value, .. } => binary_events(
            eid,
            sp,
            i32t,
            i32t,
            left as u64,
            right as u64,
            value as u64,
        ),
        StepInfo::I64BinOp { left, right, value, .. } => binary_events(
            eid,
            sp,
            i64t,
            i64t,
            left,
            right,
            value,
        ),
        StepInfo::I64BinShiftOp { left, right, value, .. } => binary_events(
            eid,
            sp,
            i64t,
            i64t,
            left,
            right,
            value,
        ),
        StepInfo::I64BinBitOp { left, right, value, .. } => binary_events(
            eid,
            sp,
            i64t,
            i64t,
            left,
            right,
            value,
        ),
        StepInfo::UnaryOp { vtype, operand, result, .. } => unary_events(
            eid,
            sp,
            vtype,
            vtype,
            operand,
            result,
        ),
        StepInfo::Test { vtype, value, result } => unary_events(
            eid,
            sp,
            vtype,
            i32t,
            value,
            result as u64,
        ),
        StepInfo::I32Comp { left, right, value, .. } => binary_events(
            eid,
            sp,
            i32t,
            i32t,
            left as u64,
            right as u64,
            truth(value),
        ),
        StepInfo::I64Comp { left, right, value, .. } => binary_events(
            eid,
            sp,
            i64t,
            i32t,
            left,
            right,
            truth(value),
        ),
        StepInfo::I32WrapI64 { value, result } => unary_events(
            eid,
            sp,
            i64t,
            i32t,
            value,
            result as u64,
        ),
        StepInfo::I64ExtendI32 { value, result, .. } => unary_events(
            eid,
            sp,
            i32t,
            i64t,
            value as u64,
            result,
        ),
        StepInfo::I32SignExtendI8 { value, result } => unary_events(
            eid,
            sp,
            i32t,
            i32t,
            value as u64,
            result as u64,
        ),
        StepInfo::I32SignExtendI16 { value, result } => unary_events(
            eid,
            sp,
            i32t,
            i32t,
            value as u64,
            result as u64,
        ),
        StepInfo::I64SignExtendI8 { value, result } => unary_events(
            eid,
            sp,
            i64t,
            i64t,
            value,
            result,
        ),
        StepInfo::I64SignExtendI16 { value, result } => unary_events(
            eid,
            sp,
            i64t,
            i64t,
            value,
            result,
        ),
        StepInfo::I64SignExtendI32 { value, result } => unary_events(
            eid,
            sp,
            i64t,
            i64t,
            value,
            result,
        ),
        StepInfo::Unreachable => Seq::empty(),
    }
}

/// The highest stack slot that a step touches, counted from its `sp`; 0
/// for a step that touches none above it.
pub open spec fn stack_reach(step_info: StepInfo) -> int {
    match step_info {
        StepInfo::Br { drop, keep, .. } => if keep is Some {
            1 + drop
        } else {
            0
        },
        StepInfo::BrIfEqz { condition, drop, keep, .. } => if condition == 0 && keep is Some {
            2 + drop
        } else {
            1
        },
        StepInfo::BrIfNez { condition, drop, keep, .. } => if condition != 0 && keep is Some {
            2 + drop
        } else {
            1
        },
        StepInfo::BrTable { drop, keep, .. } => if keep is Some {
            2 + drop
        } else {
            1
        },
        StepInfo::Return { drop, keep } => if keep is Some {
            1 + drop
        } else {
            0
        },
        StepInfo::Drop => 0,
        StepInfo::Select { .. } => 3,
        StepInfo::Call { .. } => 0,
        StepInfo::CallIndirect { .. } => 1,
        StepInfo::CallHost { arg, .. } => if arg is Some {
            1
        } else {
            0
        },
        StepInfo::ExternalHostCall { sig, .. } => match sig {
            ExternalHostCallSignature::Argument => 1,
            ExternalHostCallSignature::Return => 0,
        },
        StepInfo::GetLocal { depth, .. } => depth as int,
        StepInfo::SetLocal { depth, .. } => 1 + depth,
        StepInfo::TeeLocal { depth, .. } => if depth > 1 {
            depth as int
        } else {
            1
        },
        StepInfo::GetGlobal { .. } => 0,
        StepInfo::SetGlobal { .. } => 1,
        StepInfo::Load { .. } => 1,
        StepInfo::Store { .. } => 2,
        StepInfo::MemorySize => 0,
        StepInfo::MemoryGrow { .. } => 1,
        StepInfo::I32Const { .. } => 0,
        StepInfo::I64Const { .. } => 0,
        StepInfo::I32BinOp { .. } => 2,
        StepInfo::I32BinShiftOp { .. } => 2,
        StepInfo::I32BinBitOp { .. } => 2,
        StepInfo::I64BinOp { .. } => 2,
        StepInfo::I64BinShiftOp { .. } => 2,
        StepInfo::I64BinBitOp { .. } => 2,
        StepInfo::UnaryOp { .. } => 1,
        StepInfo::Test { .. } => 1,
        StepInfo::I32Comp { .. } => 2,
        StepInfo::I64Comp { .. } => 2,
        StepInfo::I32WrapI64 { .. } => 1,
        StepInfo::I64ExtendI32 { .. } => 1,
        StepInfo::I32SignExtendI8 { .. } => 1,
        StepInfo::I32SignExtendI16 { .. } => 1,
        StepInfo::I64SignExtendI8 { .. } => 1,
        StepInfo::I64SignExtendI16 { .. } => 1,
        StepInfo::I64SignExtendI32 { .. } => 1,
        StepInfo::Unreachable => 0,
    }
}

/// Whether every stack slot that the step touches has an offset that fits
/// the table's 32 bits.
pub open spec fn in_range(event: EventTableEntry) -> bool {
    event.sp + stack_reach(event.step_info) <= u32::MAX
}

fn reach_of(step_info: StepInfo) -> (r: u64)
    ensures
        r == stack_reach(step_info),
{
    match step_info {
        StepInfo::Br { drop, keep, .. } => if keep.is_some() {
            1 + drop as u64
        } else {
            0
        },
        StepInfo::BrIfEqz { condition, drop, keep, .. } => if condition == 0 && keep.is_some() {
            2 + drop as u64
        } else {
            1
        },
        StepInfo::BrIfNez { condition, drop, keep, .. } => if condition != 0 && keep.is_some() {
            2 + drop as u64
        } else {
            1
        },
        StepInfo::BrTable { drop, keep, .. } => if keep.is_some() {
            2 + drop as u64
        } else {
            1
        },
        StepInfo::Return { drop, keep } => if keep.is_some() {
            1 + drop as u64
        } else {
            0
        },
        StepInfo::Drop => 0,
        StepInfo::Select { .. } => 3,
        StepInfo::Call { .. } => 0,
        StepInfo::CallIndirect { .. } => 1,
        StepInfo::CallHost { arg, .. } => if arg.is_some() {
            1
        } else {
            0
        },
        StepInfo::ExternalHostCall { sig, .. } => match sig {
            ExternalHostCallSignature::Argument => 1,
            ExternalHostCallSignature::Return => 0,
        },
        StepInfo::GetLocal { depth, .. } => depth as u64,
        StepInfo::SetLocal { depth, .. } => 1 + depth as u64,
        StepInfo::TeeLocal { depth, .. } => if depth > 1 {
            depth as u64
        } else {
            1
        },
        StepInfo::GetGlobal { .. } => 0,
        StepInfo::SetGlobal { .. } => 1,
        StepInfo::Load { .. } => 1,
        StepInfo::Store { .. } => 2,
        StepInfo::MemorySize => 0,
        StepInfo::MemoryGrow { .. } => 1,
        StepInfo::I32Const { .. } => 0,
        StepInfo::I64Const { .. } => 0,
        StepInfo::I32BinOp { .. } => 2,
        StepInfo::I32BinShiftOp { .. } => 2,
        StepInfo::I32BinBitOp { .. } => 2,
        StepInfo::I64BinOp { .. } => 2,
        StepInfo::I64BinShiftOp { .. } => 2,
        StepInfo::I64BinBitOp { .. } => 2,
        StepInfo::UnaryOp { .. } => 1,
        StepInfo::Test { .. } => 1,
        StepInfo::I32Comp { .. } => 2,
        StepInfo::I64Comp { .. } => 2,
        StepInfo::I32WrapI64 { .. } => 1,
        StepInfo::I64ExtendI32 { .. } => 1,
        StepInfo::I32SignExtendI8 { .. } => 1,
        StepInfo::I32SignExtendI16 { .. } => 1,
        StepInfo::I64SignExtendI8 { .. } => 1,
        StepInfo::I64SignExtendI16 { .. } => 1,
        StepInfo::I64SignExtendI32 { .. } => 1,
        StepInfo::Unreachable => 0,
    }
}

/// Decides `in_range`.
pub fn check_in_range(event: &EventTableEntry) -> (r: bool)
    ensures
        r == in_range(*event),
{
    event.sp as u64 + reach_of(event.step_info) <= u32::MAX as u64
}

fn stack_read_entry(eid: u32, offset: u32, vtype: VarType, value: u64) -> (r: MemoryTableEntry)
    ensures
        r == stack_read(eid, offset as int, vtype, value),
{
    MemoryTableEntry {
        eid,
        offset,
        ltype: LocationType::Stack,
        atype: AccessType::Read,
        vtype,
        is_mutable: true,
        value,
    }
}

fn stack_write_entry(eid: u32, offset: u32, vtype: VarType, value: u64) -> (r: MemoryTableEntry)
    ensures
        r == stack_write(eid, offset as int, vtype, value),
{
    MemoryTableEntry {
        eid,
        offset,
        ltype: LocationType::Stack,
        atype: AccessType::Write,
        vtype,
        is_mutable: true,
        value,
    }
}

fn heap_entry(eid: u32, block: u32, atype: AccessType, value: u64) -> (r: MemoryTableEntry)
    ensures
        r == heap_access(eid, block as int, atype, value),
{
    MemoryTableEntry {
        eid,
        offset: block,
        ltype: LocationType::Heap,
        atype,
        vtype: VarType::I64,
        is_mutable: true,
        value,
    }
}

fn global_entry(
    eid: u32,
    idx: u32,
    atype: AccessType,
    vtype: VarType,
    is_mutable: bool,
    value: u64,
) -> (r: MemoryTableEntry)
    ensures
        r == global_access(eid, idx, atype, vtype, is_mutable, value),
{
    MemoryTableEntry { eid, offset: idx, ltype: LocationType::Global, atype, vtype, is_mutable, value }
}

fn one(entry: MemoryTableEntry) -> (r: Vec<MemoryTableEntry>)
    ensures
        r@ == Seq::empty().push(entry),
{
    let mut ops: Vec<MemoryTableEntry> = Vec::new();
    ops.push(entry);
    proof {
        assert(ops@ =~= Seq::empty().push(entry));
    }
    ops
}

fn two(first: MemoryTableEntry, second: MemoryTableEntry) -> (r: Vec<MemoryTableEntry>)
    ensures
        r@ == Seq::empty().push(first).push(second),
{
    let mut ops: Vec<MemoryTableEntry> = Vec::new();
    ops.push(first);
    ops.push(second);
    proof {
        assert(ops@ =~= Seq::empty().push(first).push(second));
    }
    ops
}

fn keep_ops(eid: u32, sp: u32, above: u32, drop: u32, keep: Option<TypedValue>) -> (r: Vec<
    MemoryTableEntry,
>)
    requires
        keep is Some ==> sp + above + drop <= u32::MAX,
    ensures
        r@ == keep_events(eid, sp + above, drop, keep),
{
    match keep {
        Some(kept) => {
            let vtype = VarType::from(kept.vtype);
            let top = sp + above;
            two(
                stack_read_entry(eid, top, vtype, kept.value),
                stack_write_entry(eid, top + drop, vtype, kept.value),
            )
        },
        None => Vec::new(),
    }
}

fn branch_if_ops(
    eid: u32,
    sp: u32,
    condition: u32,
    jumps: bool,
    drop: u32,
    keep: Option<TypedValue>,
) -> (r: Vec<MemoryTableEntry>)
    requires
        sp + 1 <= u32::MAX,
        jumps && keep is Some ==> sp + 2 + drop <= u32::MAX,
    ensures
        r@ == branch_if_events(eid, sp, condition, jumps, drop, keep),
{
    let mut ops = one(stack_read_entry(eid, sp + 1, VarType::I32, condition as u64));
    if jumps {
        let mut kept = keep_ops(eid, sp, 2, drop, keep);
        ops.append(&mut kept);
    }
    ops
}

fn select_ops(eid: u32, sp: u32, val1: u64, val2: u64, cond: u64, result: u64, vtype: VarType) -> (r:
    Vec<MemoryTableEntry>)
    requires
        sp + 3 <= u32::MAX,
    ensures
        r@ == select_events(eid, sp, val1, val2, cond, result, vtype),
{
    let mut ops = two(
        stack_read_entry(eid, sp + 1, VarType::I32, cond),
        stack_read_entry(eid, sp + 2, vtype, val2),
    );
    ops.push(stack_read_entry(eid, sp + 3, vtype, val1));
    ops.push(stack_write_entry(eid, sp + 3, vtype, result));
    ops
}

fn call_host_ops(eid: u32, sp: u32, arg: Option<TypedValue>, ret: Option<TypedValue>) -> (r: Vec<
    MemoryTableEntry,
>)
    requires
        arg is Some ==> sp + 1 <= u32::MAX,
    ensures
        r@ == call_host_events(eid, sp, arg, ret),
{
    let mut ops: Vec<MemoryTableEntry> = Vec::new();
    let mut top = sp;
    if let Some(a) = arg {
        ops = one(stack_read_entry(eid, sp + 1, VarType::from(a.vtype), a.value));
        top = sp + 1;
    }
    if let Some(r) = ret {
        ops.push(stack_write_entry(eid, top, VarType::from(r.vtype), r.value));
    }
    ops
}

fn move_ops(eid: u32, from: u32, to: u32, vtype: VarType, value: u64) -> (r: Vec<MemoryTableEntry>)
    ensures
        r@ == move_events(eid, from as int, to as int, vtype, value),
{
    two(stack_read_entry(eid, from, vtype, value), stack_write_entry(eid, to, vtype, value))
}

fn push_ops(eid: u32, sp: u32, vtype: VarType, value: u64) -> (r: Vec<MemoryTableEntry>)
    ensures
        r@ == push_events(eid, sp, vtype, value),
{
    one(stack_write_entry(eid, sp, vtype, value))
}

fn load_ops(
    eid: u32,
    sp: u32,
    vtype: VarType,
    size: u32,
    raw_address: u32,
    effective_address: u32,
    value: u64,
    block_value1: u64,
    block_value2: u64,
) -> (r: Vec<MemoryTableEntry>)
    requires
        sp + 1 <= u32::MAX,
        size <= 8,
    ensures
        r@ == load_events(
            eid,
            sp,
            vtype,
            size,
            raw_address,
            effective_address,
            value,
            block_value1,
            block_value2,
        ),
{
    let mut ops = two(
        stack_read_entry(eid, sp + 1, VarType::I32, raw_address as u64),
        heap_entry(eid, effective_address / 8, AccessType::Read, block_value1),
    );
    if effective_address % 8 + size > 8 {
        ops.push(heap_entry(eid, effective_address / 8 + 1, AccessType::Read, block_value2));
    }
    ops.push(stack_write_entry(eid, sp + 1, vtype, value));
    ops
}

fn store_ops(
    eid: u32,
    sp: u32,
    vtype: VarType,
    size: u32,
    raw_address: u32,
    effective_address: u32,
    value: u64,
    pre_block_value1: u64,
    updated_block_value1: u64,
    pre_block_value2: u64,
    updated_block_value2: u64,
) -> (r: Vec<MemoryTableEntry>)
    requires
        sp + 2 <= u32::MAX,
        size <= 8,
    ensures
        r@ == store_events(
            eid,
            sp,
            vtype,
            size,
            raw_address,
            effective_address,
            value,
            pre_block_value1,
            updated_block_value1,
            pre_block_value2,
            updated_block_value2,
        ),
{
    let mut ops = two(
        stack_read_entry(eid, sp + 1, vtype, value),
        stack_read_entry(eid, sp + 2, VarType::I32, raw_address as u64),
    );
    ops.push(heap_entry(eid, effective_address / 8, AccessType::Read, pre_block_value1));
    ops.push(heap_entry(eid, effective_address / 8, AccessType::Write, updated_block_value1));
    if effective_address % 8 + size > 8 {
        ops.push(heap_entry(eid, effective_address / 8 + 1, AccessType::Read, pre_block_value2));
        ops.push(heap_entry(eid, effective_address / 8 + 1, AccessType::Write, updated_block_value2));
    }
    ops
}

fn unary_ops(eid: u32, sp: u32, input: VarType, output: VarType, operand: u64, result: u64) -> (r:
    Vec<MemoryTableEntry>)
    requires
        sp + 1 <= u32::MAX,
    ensures
        r@ == unary_events(eid, sp, input, output, operand, result),
{
    two(stack_read_entry(eid, sp + 1, input, operand), stack_write_entry(eid, sp + 1, output, result))
}

fn binary_ops(
    eid: u32,
    sp: u32,
    input: VarType,
    output: VarType,
    left: u64,
    right: u64,
    result: u64,
) -> (r: Vec<MemoryTableEntry>)
    requires
        sp + 2 <= u32::MAX,
    ensures
        r@ == binary_events(eid, sp, input, output, left, right, result),
{
    let mut ops = two(
        stack_read_entry(eid, sp + 1, input, right),
        stack_read_entry(eid, sp + 2, input, left),
    );
    ops.push(stack_write_entry(eid, sp + 2, output, result));
    ops
}

fn truth_value(value: bool) -> (r: u64)
    ensures
        r == truth(value),
{
    if value {
        1
    } else {
        0
    }
}

/// Derives the memory accesses of one step. The result depends on the step
/// alone, its order included.
#[verifier::rlimit(100)]
pub fn memory_event_of_step(event: &EventTableEntry) -> (r: Vec<MemoryTableEntry>)
    requires
        in_range(*event),
    ensures
        r@ == memory_events(*event),
{
    let eid = event.eid;
    let sp = event.sp;
    let i32t = VarType::I32;
    let i64t = VarType::I64;
    match event.step_info {
        StepInfo::Br { drop, keep, .. } => keep_ops(eid, sp, 1, drop, keep),
        StepInfo::BrIfEqz { condition, drop, keep, .. } => branch_if_ops(
            eid,
            sp,
            condition,
            condition == 0,
            drop,
            keep,
        ),
        StepInfo::BrIfNez { condition, drop, keep, .. } => branch_if_ops(
            eid,
            sp,
            condition,
            condition != 0,
            drop,
            keep,
        ),
        StepInfo::BrTable { index, drop, keep, .. } => branch_if_ops(eid, sp, index, true, drop, keep),
        StepInfo::Return { drop, keep } => keep_ops(eid, sp, 1, drop, keep),
        StepInfo::Drop => Vec::new(),
        StepInfo::Select { val1, val2, cond, result, vtype } => select_ops(
            eid,
            sp,
            val1,
            val2,
            cond,
            result,
            vtype,
        ),
        StepInfo::Call { .. } => Vec::new(),
        StepInfo::CallIndirect { offset, .. } => one(
            stack_read_entry(eid, sp + 1, i32t, offset as u64),
        ),
        StepInfo::CallHost { arg, ret, .. } => call_host_ops(eid, sp, arg, ret),
        StepInfo::ExternalHostCall { value, sig, .. } => match sig {
            ExternalHostCallSignature::Argument => one(stack_read_entry(eid, sp + 1, i64t, value)),
            ExternalHostCallSignature::Return => push_ops(eid, sp, i64t, value),
        },
        StepInfo::GetLocal { vtype, depth, value } => move_ops(eid, sp + depth, sp, vtype, value),
        StepInfo::SetLocal { vtype, depth, value } => move_ops(
            eid,
            sp + 1,
            sp + 1 + depth,
            vtype,
            value,
        ),
        StepInfo::TeeLocal { vtype, depth, value } => move_ops(eid, sp + 1, sp + depth, vtype, value),
        StepInfo::GetGlobal { idx, vtype, is_mutable, value } => two(
            global_entry(eid, idx, AccessType::Read, vtype, is_mutable, value),
            stack_write_entry(eid, sp, vtype, value),
        ),
        StepInfo::SetGlobal { idx, vtype, is_mutable, value } => two(
            stack_read_entry(eid, sp + 1, vtype, value),
            global_entry(eid, idx, AccessType::Write, vtype, is_mutable, value),
        ),
        StepInfo::Load {
            vtype,
            load_size,
            raw_address,
            effective_address,
            value,
            block_value1,
            block_value2,
            ..
        } => load_ops(
            eid,
            sp,
            vtype,
            load_size.byte_size(),
            raw_address,
            effective_address,
            value,
            block_value1,
            block_value2,
        ),
        StepInfo::Store {
            vtype,
            store_size,
            raw_address,
            effective_address,
            pre_block_value1,
            updated_block_value1,
            pre_block_value2,
            updated_block_value2,
            value,
            ..
        } => store_ops(
            eid,
            sp,
            vtype,
            store_size.byte_size(),
            raw_address,
            effective_address,
            value,
            pre_block_value1,
            updated_block_value1,
            pre_block_value2,
            updated_block_value2,
        ),
        StepInfo::MemorySize => push_ops(eid, sp, i32t, event.allocated_memory_pages as u64),
        StepInfo::MemoryGrow { grow_size, result } => unary_ops(
            eid,
            sp,
            i32t,
            i32t,
            grow_size as u64,
            result as u64,
        ),
        StepInfo::I32Const { value } => push_ops(eid, sp, i32t, value as u64),
        StepInfo::I64Const { value } => push_ops(eid, sp, i64t, value),
        StepInfo::I32BinOp { left, right, value, .. } => binary_ops(
            eid,
            sp,
            i32t,
            i32t,
            left as u64,
            right as u64,
            value as u64,
        ),
        StepInfo::I32BinShiftOp { left, right, value, .. } => binary_ops(
            eid,
            sp,
            i32t,
            i32t,
            left as u64,
            right as u64,
            value as u64,
        ),
        StepInfo::I32BinBitOp { left, right, value, .. } => binary_ops(
            eid,
            sp,
            i32t,
            i32t,
            left as u64,
            right as u64,
            value as u64,
        ),
        StepInfo::I64BinOp { left, right, value, .. } => binary_ops(
            eid,
            sp,
            i64t,
            i64t,
            left,
            right,
            value,
        ),
        StepInfo::I64BinShiftOp { left, right, value, .. } => binary_ops(
            eid,
            sp,
            i64t,
            i64t,
            left,
            right,
            value,
        ),
        StepInfo::I64BinBitOp { left, right, value, .. } => binary_ops(
            eid,
            sp,
            i64t,
            i64t,
            left,
            right,
            value,
        ),
        StepInfo::UnaryOp { vtype, operand, result, .. } => unary_ops(
            eid,
            sp,
            vtype,
            vtype,
            operand,
            result,
        ),
        StepInfo::Test { vtype, value, result } => unary_ops(
            eid,
            sp,
            vtype,
            i32t,
            value,
            result as u64,
        ),
        StepInfo::I32Comp { left, right, value, .. } => binary_ops(
            eid,
            sp,
            i32t,
            i32t,
            left as u64,
            right as u64,
            truth_value(value),
        ),
        StepInfo::I64Comp { left, right, value, .. } => binary_ops(
            eid,
            sp,
            i64t,
            i32t,
            left,
            right,
            truth_value(value),
        ),
        StepInfo::I32WrapI64 { value, result } => unary_ops(
            eid,
            sp,
            i64t,
            i32t,
            value,
            result as u64,
        ),
        StepInfo::I64ExtendI32 { value, result, .. } => unary_ops(
            eid,
            sp,
            i32t,
            i64t,
            value as u64,
            result,
        ),
        StepInfo::I32SignExtendI8 { value, result } => unary_ops(
            eid,
            sp,
            i32t,
            i32t,
            value as u64,
            result as u64,
        ),
        StepInfo::I32SignExtendI16 { value, result } => unary_ops(
            eid,
            sp,
            i32t,
            i32t,
            value as u64,
            result as u64,
        ),
        StepInfo::I64SignExtendI8 { value, result } => unary_ops(eid, sp, i64t, i64t, value, result),
        StepInfo::I64SignExtendI16 { value, result } => unary_ops(eid, sp, i64t, i64t, value, result),
        StepInfo::I64SignExtendI32 { value, result } => unary_ops(eid, sp, i64t, i64t, value, result),
        StepInfo::Unreachable => Vec::new(),
    }
}

/// The memory accesses of all steps of `events`, step after step.
pub open spec fn all_memory_events(events: Seq<EventTableEntry>) -> Seq<MemoryTableEntry>
    decreases events.len(),
{
    if events.len() == 0 {
        Seq::empty()
    } else {
        all_memory_events(events.drop_last()) + memory_events(events.last())
    }
}

/// Whether every step touches only stack slots that exist.
pub fn check_all_in_range(events: &Vec<EventTableEntry>) -> (r: bool)
    ensures
        r == forall|i: int| 0 <= i < events@.len() ==> in_range(#[trigger] events@[i]),
{
    let mut i: usize = 0;
    while i < events.len()
        invariant
            i <= events.len(),
            forall|j: int| 0 <= j < i ==> in_range(#[trigger] events@[j]),
        decreases events.len() - i,
    {
        if !check_in_range(&events[i]) {
            return false;
        }
        i += 1;
    }
    true
}

/// Derives the memory table of an event table: the accesses of every step,
/// in the order of the steps.
pub fn memory_table_of(events: &Vec<EventTableEntry>) -> (r: MTable)
    requires
        forall|i: int| 0 <= i < events@.len() ==> in_range(#[trigger] events@[i]),
    ensures
        r@ == all_memory_events(events@),
{
    let mut ops: Vec<MemoryTableEntry> = Vec::new();
    let mut i: usize = 0;
    while i < events.len()
        invariant
            i <= events.len(),
            forall|j: int| 0 <= j < events@.len() ==> in_range(#[trigger] events@[j]),
            ops@ == all_memory_events(events@.take(i as int)),
        decreases events.len() - i,
    {
        let mut step_ops = memory_event_of_step(&events[i]);
        proof {
            assert(events@.take(i + 1).drop_last() =~= events@.take(i as int));
            assert(events@.take(i + 1).last() == events@[i as int]);
        }
        ops.append(&mut step_ops);
        i += 1;
    }
    proof {
        assert(events@.take(i as int) =~= events@);
    }
    MTable::new(ops)
}

/// Every memory access of a step carries the execution id of the step.
#[verifier::rlimit(100)]
pub proof fn lemma_memory_events_eid(event: EventTableEntry, j: int)
    requires
        0 <= j < memory_events(event).len(),
    ensures
        memory_events(event)[j].eid == event.eid,
{
}

/// The memory table derived from steps whose execution ids never fall
/// lists the accesses in the order of the steps, none with an id above that
/// of the last step.
pub proof fn lemma_all_memory_events_in_step_order(events: Seq<EventTableEntry>)
    requires
        forall|i: int, j: int|
            0 <= i <= j < events.len() ==> (#[trigger] events[i]).eid <= (#[trigger] events[j]).eid,
    ensures
        ops_in_step_order(all_memory_events(events)),
        forall|j: int|
            0 <= j < all_memory_events(events).len() ==> (#[trigger] all_memory_events(
                events,
            )[j]).eid <= events.last().eid,
    decreases events.len(),
{
    if events.len() > 0 {
        let rest = events.drop_last();
        let last = events.last();
        assert forall|i: int, j: int| 0 <= i <= j < rest.len() implies (#[trigger] rest[i]).eid <= (
        #[trigger] rest[j]).eid by {
            assert(rest[i] == events[i] && rest[j] == events[j]);
        }
        lemma_all_memory_events_in_step_order(rest);
        let before = all_memory_events(rest);
        let all = all_memory_events(events);
        assert(all == before + memory_events(last));
        assert forall|j: int| 0 <= j < all.len() implies (#[trigger] all[j]).eid <= last.eid by {
            if j < before.len() {
                assert(all[j] == before[j]);
                assert(rest.last() == events[rest.len() - 1]);
                assert(events[rest.len() - 1].eid <= events[events.len() - 1].eid);
            } else {
                lemma_memory_events_eid(last, j - before.len());
            }
        }
        assert forall|i: int, j: int| 0 <= i <= j < all.len() implies (#[trigger] all[i]).eid <= (
        #[trigger] all[j]).eid by {
            if j < before.len() {
                assert(all[i] == before[i] && all[j] == before[j]);
            } else {
                lemma_memory_events_eid(last, j - before.len());
                if i >= before.len() {
                    lemma_memory_events_eid(last, i - before.len());
                }
            }
        }
    }
}

/// No memory access of a step is an initial value.
#[verifier::rlimit(100)]
pub proof fn lemma_memory_events_are_of_steps(event: EventTableEntry, j: int)
    requires
        0 <= j < memory_events(event).len(),
    ensures
        memory_events(event)[j].atype != AccessType::Init,
{
}

/// The memory table derived from steps holds reads and writes only, each
/// with the execution id of one of the steps.
pub proof fn lemma_all_memory_events_are_of_steps(events: Seq<EventTableEntry>, j: int)
    requires
        0 <= j < all_memory_events(events).len(),
    ensures
        all_memory_events(events)[j].atype != AccessType::Init,
        exists|i: int|
            0 <= i < events.len() && all_memory_events(events)[j].eid == (#[trigger] events[i]).eid,
    decreases events.len(),
{
    let rest = events.drop_last();
    let before = all_memory_events(rest);
    if j < before.len() {
        lemma_all_memory_events_are_of_steps(rest, j);
        let i = choose|i: int| 0 <= i < rest.len() && before[j].eid == (#[trigger] rest[i]).eid;
        assert(events[i] == rest[i]);
    } else {
        lemma_memory_events_are_of_steps(events.last(), j - before.len());
        lemma_memory_events_eid(events.last(), j - before.len());
        assert(events[events.len() - 1] == events.last());
    }
}

} // verus!
