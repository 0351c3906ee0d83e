//! What one executed step observed: for every kind of instruction the
//! operand values it read and the results it produced.
//!
//! Values of type `i32` are held as `u32` and values of type `i64` as `u64`:
//! the two's-complement bit pattern, as the interpreter's stack holds it.

use vstd::prelude::*;
use crate::specs::host_function::ExternalHostCallSignature;
use crate::specs::host_function::HostPlugin;
use crate::specs::itable::BinOp;
use crate::specs::itable::BitOp;
use crate::specs::itable::Opcode;
use crate::specs::itable::OpcodeClass;
use crate::specs::itable::RelOp;
use crate::specs::itable::ShiftOp;
use crate::specs::itable::UnaryOp;
use crate::specs::mtable::MemoryReadSize;
use crate::specs::mtable::MemoryStoreSize;
use crate::specs::mtable::ValueType;
use crate::specs::mtable::VarType;

verus! {

/// A value together with its type.
#[derive(Clone, Copy, Debug, PartialEq, Eq, Structural, Hash)]
pub struct TypedValue {
    pub vtype: ValueType,
    pub value: u64,
}

#[allow(inconsistent_fields)]
#[derive(Clone, Copy, Debug, PartialEq, Eq, Structural, Hash)]
pub enum StepInfo {
    Br { dst_pc: u32, drop: u32, keep: Option<TypedValue> },
    BrIfEqz { condition: u32, dst_pc: u32, drop: u32, keep: Option<TypedValue> },
    BrIfNez { condition: u32, dst_pc: u32, drop: u32, keep: Option<TypedValue> },
    BrTable { index: u32, dst_pc: u32, drop: u32, keep: Option<TypedValue> },
    Return { drop: u32, keep: Option<TypedValue> },
    Drop,
    Select { val1: u64, val2: u64, cond: u64, result: u64, vtype: VarType },
    Call { index: u32 },
    CallIndirect { table_index: u32, type_index: u32, offset: u32, func_index: u32 },
    /// A call served inside the interpreter by `plugin`. Such a function
    /// takes at most one argument and returns at most one value.
    CallHost {
        plugin: HostPlugin,
        op_index_in_plugin: u32,
        arg: Option<TypedValue>,
        ret: Option<TypedValue>,
    },
    /// One step of a call served outside the interpreter: it hands one
    /// argument over or takes the result back.
    ExternalHostCall { op: u32, value: u64, sig: ExternalHostCallSignature },
    GetLocal { vtype: VarType, depth: u32, value: u64 },
    SetLocal { vtype: VarType, depth: u32, value: u64 },
    TeeLocal { vtype: VarType, depth: u32, value: u64 },
    GetGlobal { idx: u32, vtype: VarType, is_mutable: bool, value: u64 },
    SetGlobal { idx: u32, vtype: VarType, is_mutable: bool, value: u64 },
    Load {
        vtype: VarType,
        load_size: MemoryReadSize,
        offset: u32,
        raw_address: u32,
        effective_address: u32,
        value: u64,
        block_value1: u64,
        block_value2: u64,
    },
    Store {
        vtype: VarType,
        store_size: MemoryStoreSize,
        offset: u32,
        raw_address: u32,
        effective_address: u32,
        pre_block_value1: u64,
        updated_block_value1: u64,
        pre_block_value2: u64,
        updated_block_value2: u64,
        value: u64,
    },
    MemorySize,
    MemoryGrow { grow_size: u32, result: u32 },
    I32Const { value: u32 },
    I64Const { value: u64 },
    I32BinOp { class: BinOp, left: u32, right: u32, value: u32 },
    I32BinShiftOp { class: ShiftOp, left: u32, right: u32, value: u32 },
    I32BinBitOp { class: BitOp, left: u32, right: u32, value: u32 },
    I64BinOp { class: BinOp, left: u64, right: u64, value: u64 },
    I64BinShiftOp { class: ShiftOp, left: u64, right: u64, value: u64 },
    I64BinBitOp { class: BitOp, left: u64, right: u64, value: u64 },
    UnaryOp { class: UnaryOp, vtype: VarType, operand: u64, result: u64 },
    Test { vtype: VarType, value: u64, result: u32 },
    I32Comp { class: RelOp, left: u32, right: u32, value: bool },
    I64Comp { class: RelOp, left: u64, right: u64, value: bool },
    I32WrapI64 { value: u64, result: u32 },
    I64ExtendI32 { value: u32, result: u64, sign: bool },
    I32SignExtendI8 { value: u32, result: u32 },
    I32SignExtendI16 { value: u32, result: u32 },
    I64SignExtendI8 { value: u64, result: u64 },
    I64SignExtendI16 { value: u64, result: u64 },
    I64SignExtendI32 { value: u64, result: u64 },
    /// The program trapped at this step; nothing was read or written.
    Unreachable,
}

impl StepInfo {
    pub open spec fn spec_class(self) -> OpcodeClass {
        match self {
            StepInfo::Br { .. } => OpcodeClass::Br,
            StepInfo::BrIfEqz { .. } => OpcodeClass::BrIfEqz,
            StepInfo::BrIfNez { .. } => OpcodeClass::BrIf,
            StepInfo::BrTable { .. } => OpcodeClass::BrTable,
            StepInfo::Return { .. } => OpcodeClass::Return,
            StepInfo::Drop => OpcodeClass::Drop,
            StepInfo::Select { .. } => OpcodeClass::Select,
            StepInfo::Call { .. } => OpcodeClass::Call,
            StepInfo::CallIndirect { .. } => OpcodeClass::CallIndirect,
            StepInfo::CallHost { .. } => OpcodeClass::CallHost,
            StepInfo::ExternalHostCall { .. } => OpcodeClass::ExternalHostCall,
            StepInfo::GetLocal { .. } => OpcodeClass::LocalGet,
            StepInfo::SetLocal { .. } => OpcodeClass::LocalSet,
            StepInfo::TeeLocal { .. } => OpcodeClass::LocalTee,
            StepInfo::GetGlobal { .. } => OpcodeClass::GlobalGet,
            StepInfo::SetGlobal { .. } => OpcodeClass::GlobalSet,
            StepInfo::Load { .. } => OpcodeClass::Load,
            StepInfo::Store { .. } => OpcodeClass::Store,
            StepInfo::MemorySize => OpcodeClass::MemorySize,
            StepInfo::MemoryGrow { .. } => OpcodeClass::MemoryGrow,
            StepInfo::I32Const { .. } => OpcodeClass::Const,
            StepInfo::I64Const { .. } => OpcodeClass::Const,
            StepInfo::I32BinOp { .. } => OpcodeClass::Bin,
            StepInfo::I32BinShiftOp { .. } => OpcodeClass::BinShift,
            StepInfo::I32BinBitOp { .. } => OpcodeClass::BinBit,
            StepInfo::I64BinOp { .. } => OpcodeClass::Bin,
            StepInfo::I64BinShiftOp { .. } => OpcodeClass::BinShift,
            StepInfo::I64BinBitOp { .. } => OpcodeClass::BinBit,
            StepInfo::UnaryOp { .. } => OpcodeClass::Unary,
            StepInfo::Test { .. } => OpcodeClass::Test,
            StepInfo::I32Comp { .. } => OpcodeClass::Rel,
            StepInfo::I64Comp { .. } => OpcodeClass::Rel,
            StepInfo::I32WrapI64 { .. } => OpcodeClass::Conversion,
            StepInfo::I64ExtendI32 { .. } => OpcodeClass::Conversion,
            StepInfo::I32SignExtendI8 { .. } => OpcodeClass::Conversion,
            StepInfo::I32SignExtendI16 { .. } => OpcodeClass::Conversion,
            StepInfo::I64SignExtendI8 { .. } => OpcodeClass::Conversion,
            StepInfo::I64SignExtendI16 { .. } => OpcodeClass::Conversion,
            StepInfo::I64SignExtendI32 { .. } => OpcodeClass::Conversion,
            StepInfo::Unreachable => OpcodeClass::Unreachable,
        }
    }

    /// The class of the instruction that makes such a step.
    #[verifier::when_used_as_spec(spec_class)]
    pub fn class(self) -> (r: OpcodeClass)
        ensures
            r == self.spec_class(),
    {
        match self {
            StepInfo::Br { .. } => OpcodeClass::Br,
            StepInfo::BrIfEqz { .. } => OpcodeClass::BrIfEqz,
            StepInfo::BrIfNez { .. } => OpcodeClass::BrIf,
            StepInfo::BrTable { .. } => OpcodeClass::BrTable,
            StepInfo::Return { .. } => OpcodeClass::Return,
            StepInfo::Drop => OpcodeClass::Drop,
            StepInfo::Select { .. } => OpcodeClass::Select,
            StepInfo::Call { .. } => OpcodeClass::Call,
            StepInfo::CallIndirect { .. } => OpcodeClass::CallIndirect,
            StepInfo::CallHost { .. } => OpcodeClass::CallHost,
            StepInfo::ExternalHostCall { .. } => OpcodeClass::ExternalHostCall,
            StepInfo::GetLocal { .. } => OpcodeClass::LocalGet,
            StepInfo::SetLocal { .. } => OpcodeClass::LocalSet,
            StepInfo::TeeLocal { .. } => OpcodeClass::LocalTee,
            StepInfo::GetGlobal { .. } => OpcodeClass::GlobalGet,
            StepInfo::SetGlobal { .. } => OpcodeClass::GlobalSet,
            StepInfo::Load { .. } => OpcodeClass::Load,
            StepInfo::Store { .. } => OpcodeClass::Store,
            StepInfo::MemorySize => OpcodeClass::MemorySize,
            StepInfo::MemoryGrow { .. } => OpcodeClass::MemoryGrow,
            StepInfo::I32Const { .. } => OpcodeClass::Const,
            StepInfo::I64Const { .. } => OpcodeClass::Const,
            StepInfo::I32BinOp { .. } => OpcodeClass::Bin,
            StepInfo::I32BinShiftOp { .. } => OpcodeClass::BinShift,
            StepInfo::I32BinBitOp { .. } => OpcodeClass::BinBit,
            StepInfo::I64BinOp { .. } => OpcodeClass::Bin,
            StepInfo::I64BinShiftOp { .. } => OpcodeClass::BinShift,
            StepInfo::I64BinBitOp { .. } => OpcodeClass::BinBit,
            StepInfo::UnaryOp { .. } => OpcodeClass::Unary,
            StepInfo::Test { .. } => OpcodeClass::Test,
            StepInfo::I32Comp { .. } => OpcodeClass::Rel,
            StepInfo::I64Comp { .. } => OpcodeClass::Rel,
            StepInfo::I32WrapI64 { .. } => OpcodeClass::Conversion,
            StepInfo::I64ExtendI32 { .. } => OpcodeClass::Conversion,
            StepInfo::I32SignExtendI8 { .. } => OpcodeClass::Conversion,
            StepInfo::I32SignExtendI16 { .. } => OpcodeClass::Conversion,
            StepInfo::I64SignExtendI8 { .. } => OpcodeClass::Conversion,
            StepInfo::I64SignExtendI16 { .. } => OpcodeClass::Conversion,
            StepInfo::I64SignExtendI32 { .. } => OpcodeClass::Conversion,
            StepInfo::Unreachable => OpcodeClass::Unreachable,
        }
    }

    /// The function a call enters; `None` for a step that is no call.
    pub open spec fn spec_callee(self) -> Option<u32> {
        match self {
            StepInfo::Call { index } => Some(index),
            StepInfo::CallIndirect { func_index, .. } => Some(func_index),
            _ => None,
        }
    }

    #[verifier::when_used_as_spec(spec_callee)]
    pub fn callee(self) -> (r: Option<u32>)
        ensures
            r == self.spec_callee(),
    {
        match self {
            StepInfo::Call { index } => Some(index),
            StepInfo::CallIndirect { func_index, .. } => Some(func_index),
            _ => None,
        }
    }
}

/// The type of a kept value, if one is kept.
pub open spec fn spec_kept_type(keep: Option<TypedValue>) -> Option<ValueType> {
    match keep {
        Some(kept) => Some(kept.vtype),
        None => None,
    }
}

#[verifier::when_used_as_spec(spec_kept_type)]
pub fn kept_type(keep: Option<TypedValue>) -> (r: Option<ValueType>)
    ensures
        r == spec_kept_type(keep),
{
    match keep {
        Some(kept) => Some(kept.vtype),
        None => None,
    }
}

/// Whether a step is one that the instruction can make: it is of the class
/// of the instruction, and where the instruction fixes what a step may
/// observe of drops, kept values, targets, callees, locals, globals and
/// memory accesses, the step observed just that.
pub open spec fn spec_agrees(opcode: Opcode, step_info: StepInfo) -> bool {
    &&& opcode.spec_class() == step_info.spec_class()
    &&& match (opcode, step_info) {
        (Opcode::Return { drop, keep }, StepInfo::Return { drop: dropped, keep: kept }) => drop
            == dropped && keep == spec_kept_type(kept),
        (
            Opcode::Br { drop, keep, dst_pc },
            StepInfo::Br { dst_pc: target, drop: dropped, keep: kept },
        ) => drop == dropped && keep == spec_kept_type(kept) && dst_pc == target,
        (
            Opcode::BrIf { drop, keep, dst_pc },
            StepInfo::BrIfNez { dst_pc: target, drop: dropped, keep: kept, .. },
        ) => drop == dropped && keep == spec_kept_type(kept) && dst_pc == target,
        (
            Opcode::BrIfEqz { drop, keep, dst_pc },
            StepInfo::BrIfEqz { dst_pc: target, drop: dropped, keep: kept, .. },
        ) => drop == dropped && keep == spec_kept_type(kept) && dst_pc == target,
        (Opcode::Call { index }, StepInfo::Call { index: callee }) => index == callee,
        (Opcode::LocalGet { vtype, offset }, StepInfo::GetLocal { vtype: observed, depth, .. }) => vtype
            == observed && offset == depth,
        (Opcode::LocalSet { vtype, offset }, StepInfo::SetLocal { vtype: observed, depth, .. }) => vtype
            == observed && offset == depth,
        (Opcode::LocalTee { vtype, offset }, StepInfo::TeeLocal { vtype: observed, depth, .. }) => vtype
            == observed && offset == depth,
        (Opcode::GlobalGet { idx }, StepInfo::GetGlobal { idx: observed, .. }) => idx == observed,
        (Opcode::GlobalSet { idx }, StepInfo::SetGlobal { idx: observed, .. }) => idx == observed,
        (
            Opcode::Load { offset, vtype, size },
            StepInfo::Load { vtype: observed, load_size, offset: at, .. },
        ) => offset == at && vtype == observed && size == load_size,
        (
            Opcode::Store { offset, vtype, size },
            StepInfo::Store { vtype: observed, store_size, offset: at, .. },
        ) => offset == at && vtype == observed && size == store_size,
        _ => true,
    }
}

/// Decides whether a step is one that the instruction can make.
#[verifier::when_used_as_spec(spec_agrees)]
pub fn agrees(opcode: Opcode, step_info: StepInfo) -> (r: bool)
    ensures
        r == spec_agrees(opcode, step_info),
{
    if opcode.class() != step_info.class() {
        return false;
    }
    match (opcode, step_info) {
        (Opcode::Return { drop, keep }, StepInfo::Return { drop: dropped, keep: kept }) => drop
            == dropped && keep == kept_type(kept),
        (
            Opcode::Br { drop, keep, dst_pc },
            StepInfo::Br { dst_pc: target, drop: dropped, keep: kept },
        ) => drop == dropped && keep == kept_type(kept) && dst_pc == target,
        (
            Opcode::BrIf { drop, keep, dst_pc },
            StepInfo::BrIfNez { dst_pc: target, drop: dropped, keep: kept, .. },
        ) => drop == dropped && keep == kept_type(kept) && dst_pc == target,
        (
            Opcode::BrIfEqz { drop, keep, dst_pc },
            StepInfo::BrIfEqz { dst_pc: target, drop: dropped, keep: kept, .. },
        ) => drop == dropped && keep == kept_type(kept) && dst_pc == target,
        (Opcode::Call { index }, StepInfo::Call { index: callee }) => index == callee,
        (Opcode::LocalGet { vtype, offset }, StepInfo::GetLocal { vtype: observed, depth, .. }) => vtype
            == observed && offset == depth,
        (Opcode::LocalSet { vtype, offset }, StepInfo::SetLocal { vtype: observed, depth, .. }) => vtype
            == observed && offset == depth,
        (Opcode::LocalTee { vtype, offset }, StepInfo::TeeLocal { vtype: observed, depth, .. }) => vtype
            == observed && offset == depth,
        (Opcode::GlobalGet { idx }, StepInfo::GetGlobal { idx: observed, .. }) => idx == observed,
        (Opcode::GlobalSet { idx }, StepInfo::SetGlobal { idx: observed, .. }) => idx == observed,
        (
            Opcode::Load { offset, vtype, size },
            StepInfo::Load { vtype: observed, load_size, offset: at, .. },
        ) => offset == at && vtype == observed && size == load_size,
        (
            Opcode::Store { offset, vtype, size },
            StepInfo::Store { vtype: observed, store_size, offset: at, .. },
        ) => offset == at && vtype == observed && size == store_size,
        _ => true,
    }
}

} // verus!
