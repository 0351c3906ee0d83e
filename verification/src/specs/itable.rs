//! The instruction table: every instruction of a compiled module, named by
//! the function that holds it and its position there.

use vstd::prelude::*;
use crate::specs::host_function::ExternalHostCallSignature;
use crate::specs::host_function::HostPlugin;
use crate::specs::mtable::MemoryReadSize;
use crate::specs::mtable::MemoryStoreSize;
use crate::specs::mtable::ValueType;
use crate::specs::mtable::VarType;

verus! {

#[derive(Clone, Copy, Debug, PartialEq, Eq, Structural, Hash)]
pub enum BinOp {
    Add,
    Sub,
    Mul,
    UnsignedDiv,
    UnsignedRem,
    SignedDiv,
    SignedRem,
}

#[derive(Clone, Copy, Debug, PartialEq, Eq, Structural, Hash)]
pub enum ShiftOp {
    Shl,
    UnsignedShr,
    SignedShr,
    Rotl,
    Rotr,
}

#[derive(Clone, Copy, Debug, PartialEq, Eq, Structural, Hash)]
pub enum BitOp {
    And,
    Or,
    Xor,
}

#[derive(Clone, Copy, Debug, PartialEq, Eq, Structural, Hash)]
pub enum UnaryOp {
    Ctz,
    Clz,
    Popcnt,
}

#[derive(Clone, Copy, Debug, PartialEq, Eq, Structural, Hash)]
pub enum RelOp {
    Eq,
    Ne,
    SignedGt,
    UnsignedGt,
    SignedGe,
    UnsignedGe,
    SignedLt,
    UnsignedLt,
    SignedLe,
    UnsignedLe,
}

#[derive(Clone, Copy, Debug, PartialEq, Eq, Structural, Hash)]
pub enum ConversionOp {
    I32WrapI64,
    I64ExtendI32s,
    I64ExtendI32u,
    I32Extend8S,
    I32Extend16S,
    I64Extend8S,
    I64Extend16S,
    I64Extend32S,
}

/// The class of an instruction: the unit by which the circuit selects its
/// constraints.
#[derive(Clone, Copy, Debug, PartialEq, Eq, Structural, Hash)]
pub enum OpcodeClass {
    LocalGet,
    LocalSet,
    LocalTee,
    GlobalGet,
    GlobalSet,
    Const,
    Drop,
    Select,
    Return,
    Bin,
    Unary,
    BinShift,
    BinBit,
    Test,
    Rel,
    Br,
    BrIf,
    BrIfEqz,
    BrTable,
    Unreachable,
    Call,
    CallHost,
    CallIndirect,
    Load,
    Store,
    MemorySize,
    MemoryGrow,
    Conversion,
    ExternalHostCall,
}

/// Where the class of an instruction stands in its encoding: above the two
/// arguments and the immediate.
pub const OPCODE_CLASS_SHIFT: u32 = 96;

/// Where the first argument of an instruction stands in its encoding.
pub const OPCODE_ARG0_SHIFT: u32 = 80;

/// Where the second argument of an instruction stands in its encoding,
/// above the 64 bits of the immediate.
pub const OPCODE_ARG1_SHIFT: u32 = 64;

/// How many opcode classes there are.
pub const OPCODE_CLASS_COUNT: usize = 29;

impl OpcodeClass {
    /// The position of the class among all classes.
    pub open spec fn spec_index(self) -> usize {
        match self {
            OpcodeClass::LocalGet => 0,
            OpcodeClass::LocalSet => 1,
            OpcodeClass::LocalTee => 2,
            OpcodeClass::GlobalGet => 3,
            OpcodeClass::GlobalSet => 4,
            OpcodeClass::Const => 5,
            OpcodeClass::Drop => 6,
            OpcodeClass::Select => 7,
            OpcodeClass::Return => 8,
            OpcodeClass::Bin => 9,
            OpcodeClass::Unary => 10,
            OpcodeClass::BinShift => 11,
            OpcodeClass::BinBit => 12,
            OpcodeClass::Test => 13,
            OpcodeClass::Rel => 14,
            OpcodeClass::Br => 15,
            OpcodeClass::BrIf => 16,
            OpcodeClass::BrIfEqz => 17,
            OpcodeClass::BrTable => 18,
            OpcodeClass::Unreachable => 19,
            OpcodeClass::Call => 20,
            OpcodeClass::CallHost => 21,
            OpcodeClass::CallIndirect => 22,
            OpcodeClass::Load => 23,
            OpcodeClass::Store => 24,
            OpcodeClass::MemorySize => 25,
            OpcodeClass::MemoryGrow => 26,
            OpcodeClass::Conversion => 27,
            OpcodeClass::ExternalHostCall => 28,
        }
    }

    #[verifier::when_used_as_spec(spec_index)]
    pub fn index(self) -> (r: usize)
        ensures
            r == self.spec_index(),
            r < OPCODE_CLASS_COUNT,
    {
        match self {
            OpcodeClass::LocalGet => 0,
            OpcodeClass::LocalSet => 1,
            OpcodeClass::LocalTee => 2,
            OpcodeClass::GlobalGet => 3,
            OpcodeClass::GlobalSet => 4,
            OpcodeClass::Const => 5,
            OpcodeClass::Drop => 6,
            OpcodeClass::Select => 7,
            OpcodeClass::Return => 8,
            OpcodeClass::Bin => 9,
            OpcodeClass::Unary => 10,
            OpcodeClass::BinShift => 11,
            OpcodeClass::BinBit => 12,
            OpcodeClass::Test => 13,
            OpcodeClass::Rel => 14,
            OpcodeClass::Br => 15,
            OpcodeClass::BrIf => 16,
            OpcodeClass::BrIfEqz => 17,
            OpcodeClass::BrTable => 18,
            OpcodeClass::Unreachable => 19,
            OpcodeClass::Call => 20,
            OpcodeClass::CallHost => 21,
            OpcodeClass::CallIndirect => 22,
            OpcodeClass::Load => 23,
            OpcodeClass::Store => 24,
            OpcodeClass::MemorySize => 25,
            OpcodeClass::MemoryGrow => 26,
            OpcodeClass::Conversion => 27,
            OpcodeClass::ExternalHostCall => 28,
        }
    }

    /// The class at a position, if there is one.
    pub fn from_index(index: usize) -> (r: Option<OpcodeClass>)
        ensures
            r is Some <==> index < OPCODE_CLASS_COUNT,
            r matches Some(class) ==> class.spec_index() == index,
    {
        if index == 0 {
            Some(OpcodeClass::LocalGet)
        } else if index == 1 {
            Some(OpcodeClass::LocalSet)
        } else if index == 2 {
            Some(OpcodeClass::LocalTee)
        } else if index == 3 {
            Some(OpcodeClass::GlobalGet)
        } else if index == 4 {
            Some(OpcodeClass::GlobalSet)
        } else if index == 5 {
            Some(OpcodeClass::Const)
        } else if index == 6 {
            Some(OpcodeClass::Drop)
        } else if index == 7 {
            Some(OpcodeClass::Select)
        } else if index == 8 {
            Some(OpcodeClass::Return)
        } else if index == 9 {
            Some(OpcodeClass::Bin)
        } else if index == 10 {
            Some(OpcodeClass::Unary)
        } else if index == 11 {
            Some(OpcodeClass::BinShift)
        } else if index == 12 {
            Some(OpcodeClass::BinBit)
        } else if index == 13 {
            Some(OpcodeClass::Test)
        } else if index == 14 {
            Some(OpcodeClass::Rel)
        } else if index == 15 {
            Some(OpcodeClass::Br)
        } else if index == 16 {
            Some(OpcodeClass::BrIf)
        } else if index == 17 {
            Some(OpcodeClass::BrIfEqz)
        } else if index == 18 {
            Some(OpcodeClass::BrTable)
        } else if index == 19 {
            Some(OpcodeClass::Unreachable)
        } else if index == 20 {
            Some(OpcodeClass::Call)
        } else if index == 21 {
            Some(OpcodeClass::CallHost)
        } else if index == 22 {
            Some(OpcodeClass::CallIndirect)
        } else if index == 23 {
            Some(OpcodeClass::Load)
        } else if index == 24 {
            Some(OpcodeClass::Store)
        } else if index == 25 {
            Some(OpcodeClass::MemorySize)
        } else if index == 26 {
            Some(OpcodeClass::MemoryGrow)
        } else if index == 27 {
            Some(OpcodeClass::Conversion)
        } else if index == 28 {
            Some(OpcodeClass::ExternalHostCall)
        } else {
            None
        }
    }
}

/// An instruction with the operands that are fixed when the module is
/// compiled.
#[allow(inconsistent_fields)]
#[derive(Clone, Copy, Debug, PartialEq, Eq, Structural, Hash)]
pub enum Opcode {
    LocalGet { vtype: VarType, offset: u32 },
    LocalSet { vtype: VarType, offset: u32 },
    LocalTee { vtype: VarType, offset: u32 },
    GlobalGet { idx: u32 },
    GlobalSet { idx: u32 },
    MemorySize,
    MemoryGrow,
    Const { vtype: VarType, value: u64 },
    Drop,
    Select,
    Return { drop: u32, keep: Option<ValueType> },
    Bin { class: BinOp, vtype: VarType },
    BinShift { class: ShiftOp, vtype: VarType },
    BinBit { class: BitOp, vtype: VarType },
    Unary { class: UnaryOp, vtype: VarType },
    Test { vtype: VarType },
    Rel { class: RelOp, vtype: VarType },
    Br { drop: u32, keep: Option<ValueType>, dst_pc: u32 },
    BrIf { drop: u32, keep: Option<ValueType>, dst_pc: u32 },
    BrIfEqz { drop: u32, keep: Option<ValueType>, dst_pc: u32 },
    BrTable,
    Unreachable,
    Call { index: u32 },
    CallIndirect { type_idx: u32 },
    InternalHostCall { plugin: HostPlugin, function_index: u32, op_index_in_plugin: u32 },
    ExternalHostCall { op: u32, sig: ExternalHostCallSignature },
    Load { offset: u32, vtype: VarType, size: MemoryReadSize },
    Store { offset: u32, vtype: VarType, size: MemoryStoreSize },
    Conversion { class: ConversionOp },
}

impl Opcode {
    pub open spec fn spec_class(self) -> OpcodeClass {
        match self {
            Opcode::LocalGet { .. } => OpcodeClass::LocalGet,
            Opcode::LocalSet { .. } => OpcodeClass::LocalSet,
            Opcode::LocalTee { .. } => OpcodeClass::LocalTee,
            Opcode::GlobalGet { .. } => OpcodeClass::GlobalGet,
            Opcode::GlobalSet { .. } => OpcodeClass::GlobalSet,
            Opcode::MemorySize => OpcodeClass::MemorySize,
            Opcode::MemoryGrow => OpcodeClass::MemoryGrow,
            Opcode::Const { .. } => OpcodeClass::Const,
            Opcode::Drop => OpcodeClass::Drop,
            Opcode::Select => OpcodeClass::Select,
            Opcode::Return { .. } => OpcodeClass::Return,
            Opcode::Bin { .. } => OpcodeClass::Bin,
            Opcode::BinShift { .. } => OpcodeClass::BinShift,
            Opcode::BinBit { .. } => OpcodeClass::BinBit,
            Opcode::Unary { .. } => OpcodeClass::Unary,
            Opcode::Test { .. } => OpcodeClass::Test,
            Opcode::Rel { .. } => OpcodeClass::Rel,
            Opcode::Br { .. } => OpcodeClass::Br,
            Opcode::BrIf { .. } => OpcodeClass::BrIf,
            Opcode::BrIfEqz { .. } => OpcodeClass::BrIfEqz,
            Opcode::BrTable => OpcodeClass::BrTable,
            Opcode::Unreachable => OpcodeClass::Unreachable,
            Opcode::Call { .. } => OpcodeClass::Call,
            Opcode::CallIndirect { .. } => OpcodeClass::CallIndirect,
            Opcode::InternalHostCall { .. } => OpcodeClass::CallHost,
            Opcode::ExternalHostCall { .. } => OpcodeClass::ExternalHostCall,
            Opcode::Load { .. } => OpcodeClass::Load,
            Opcode::Store { .. } => OpcodeClass::Store,
            Opcode::Conversion { .. } => OpcodeClass::Conversion,
        }
    }

    /// The class the instruction belongs to.
    #[verifier::when_used_as_spec(spec_class)]
    pub fn class(self) -> (r: OpcodeClass)
        ensures
            r == self.spec_class(),
    {
        match self {
            Opcode::LocalGet { .. } => OpcodeClass::LocalGet,
            Opcode::LocalSet { .. } => OpcodeClass::LocalSet,
            Opcode::LocalTee { .. } => OpcodeClass::LocalTee,
            Opcode::GlobalGet { .. } => OpcodeClass::GlobalGet,
            Opcode::GlobalSet { .. } => OpcodeClass::GlobalSet,
            Opcode::MemorySize => OpcodeClass::MemorySize,
            Opcode::MemoryGrow => OpcodeClass::MemoryGrow,
            Opcode::Const { .. } => OpcodeClass::Const,
            Opcode::Drop => OpcodeClass::Drop,
            Opcode::Select => OpcodeClass::Select,
            Opcode::Return { .. } => OpcodeClass::Return,
            Opcode::Bin { .. } => OpcodeClass::Bin,
            Opcode::BinShift { .. } => OpcodeClass::BinShift,
            Opcode::BinBit { .. } => OpcodeClass::BinBit,
            Opcode::Unary { .. } => OpcodeClass::Unary,
            Opcode::Test { .. } => OpcodeClass::Test,
            Opcode::Rel { .. } => OpcodeClass::Rel,
            Opcode::Br { .. } => OpcodeClass::Br,
            Opcode::BrIf { .. } => OpcodeClass::BrIf,
            Opcode::BrIfEqz { .. } => OpcodeClass::BrIfEqz,
            Opcode::BrTable => OpcodeClass::BrTable,
            Opcode::Unreachable => OpcodeClass::Unreachable,
            Opcode::Call { .. } => OpcodeClass::Call,
            Opcode::CallIndirect { .. } => OpcodeClass::CallIndirect,
            Opcode::InternalHostCall { .. } => OpcodeClass::CallHost,
            Opcode::ExternalHostCall { .. } => OpcodeClass::ExternalHostCall,
            Opcode::Load { .. } => OpcodeClass::Load,
            Opcode::Store { .. } => OpcodeClass::Store,
            Opcode::Conversion { .. } => OpcodeClass::Conversion,
        }
    }
}

/// One decoded instruction: instruction `iid` of function `fid`.
#[derive(Clone, Copy, Debug, PartialEq, Eq, Structural, Hash)]
pub struct InstructionTableEntry {
    pub fid: u32,
    pub iid: u32,
    pub opcode: Opcode,
}

} // verus!
