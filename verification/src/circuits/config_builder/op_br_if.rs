//! The conditional branch that jumps where its condition is not zero.

use vstd::prelude::*;
use vstd::arithmetic::power2::pow2;
use crate::circuits::utils::bn::bn;
use crate::circuits::utils::bn::pack;
use crate::circuits::utils::bn::packed;
use crate::runtime::memory_events;
use crate::runtime::stack_read;
use crate::specs::etable::EventTableEntry;
use crate::specs::itable::OpcodeClass;
use crate::specs::itable::OPCODE_ARG0_SHIFT;
use crate::specs::itable::OPCODE_ARG1_SHIFT;
use crate::specs::itable::OPCODE_CLASS_SHIFT;
use crate::specs::mtable::VarType;
use crate::specs::step::StepInfo;
use crate::specs::step::TypedValue;

verus! {

/// The values of the cells of one conditional branch.
#[derive(Clone, Copy, Debug, PartialEq, Eq, Structural, Hash)]
pub struct BrIfConfig {
    pub drop: u64,
    /// 1 where the branch keeps a value, else 0.
    pub keep: u64,
    /// The value that is kept and its type, where one is.
    pub keep_value: Option<TypedValue>,
    pub condition: u64,
    pub dst_pc: u64,
}

/// Builds the cells of conditional branches. The constraints on the cells
/// belong to the constraint system of the proving backend; what they mean
/// on integers is `pc_jump` and `lemma_br_if_memory`.
pub struct BrIfConfigBuilder {}

/// Whether control goes where a conditional branch sends it: to the target
/// where the condition is not zero, else to the next instruction.
pub open spec fn pc_jump(condition: u64, iid: u32, dst_pc: u64, next_iid: u32) -> bool {
    if condition != 0 {
        next_iid == dst_pc
    } else {
        next_iid == iid + 1
    }
}

/// The encoding of a conditional branch: the class above bit 96, the number
/// of dropped values above bit 80, the number of kept values above bit 64,
/// and the target below.
pub open spec fn br_if_encoding(cells: BrIfConfig) -> nat {
    (OpcodeClass::BrIf.spec_index() * pow2(OPCODE_CLASS_SHIFT as nat) + cells.drop * pow2(
        OPCODE_ARG0_SHIFT as nat,
    ) + cells.keep * pow2(OPCODE_ARG1_SHIFT as nat) + cells.dst_pc) as nat
}

/// The cells of a step of a conditional branch.
pub open spec fn br_if_cells(entry: EventTableEntry) -> BrIfConfig {
    BrIfConfig {
        drop: entry.step_info->BrIfNez_drop as u64,
        keep: if entry.step_info->BrIfNez_keep is Some {
            1
        } else {
            0
        },
        keep_value: entry.step_info->BrIfNez_keep,
        condition: entry.step_info->BrIfNez_condition as u64,
        dst_pc: entry.step_info->BrIfNez_dst_pc as u64,
    }
}

impl BrIfConfig {
    /// How many memory accesses the branch makes where it jumps: it reads
    /// the condition, and it reads and writes the value it keeps.
    pub fn mops(&self) -> (r: u64)
        requires
            self.keep <= 1,
        ensures
            r == self.keep * 2 + 1,
    {
        self.keep * 2 + 1
    }

    /// A conditional branch may change where execution goes on.
    pub fn handle_jump(&self) -> (r: bool)
        ensures
            r,
    {
        true
    }

    pub fn opcode_class(&self) -> (r: OpcodeClass)
        ensures
            r == OpcodeClass::BrIf,
    {
        OpcodeClass::BrIf
    }

    /// By how many slots the branch moves the stack pointer where it jumps:
    /// it frees the slot of the condition and the slots it drops.
    pub fn sp_diff(&self) -> (r: u64)
        requires
            self.drop <= u32::MAX,
        ensures
            r == 1 + self.drop,
    {
        1 + self.drop
    }

    /// The encoding of the instruction, as the instruction table holds it:
    /// the class, what the branch drops and keeps, and its target, each at
    /// its place.
    pub fn opcode(&self) -> (r: num_bigint::BigUint)
        ensures
            bn(r) == br_if_encoding(*self),
    {
        let mut parts: Vec<(u64, u32)> = Vec::new();
        parts.push((OpcodeClass::BrIf.index() as u64, OPCODE_CLASS_SHIFT));
        parts.push((self.drop, OPCODE_ARG0_SHIFT));
        parts.push((self.keep, OPCODE_ARG1_SHIFT));
        parts.push((self.dst_pc, 0));
        proof {
            let p4 = parts@;
            let p3 = p4.drop_last();
            let p2 = p3.drop_last();
            let p1 = p2.drop_last();
            let p0 = p1.drop_last();
            vstd::arithmetic::power2::lemma2_to64();
            assert(p0.len() == 0);
            assert(packed(p0) == 0);
            assert(p1.last() == (OpcodeClass::BrIf.spec_index() as u64, OPCODE_CLASS_SHIFT));
            assert(packed(p1) == packed(p0) + p1.last().0 * pow2(p1.last().1 as nat));
            assert(p2.last() == (self.drop, OPCODE_ARG0_SHIFT));
            assert(packed(p2) == packed(p1) + p2.last().0 * pow2(p2.last().1 as nat));
            assert(p3.last() == (self.keep, OPCODE_ARG1_SHIFT));
            assert(packed(p3) == packed(p2) + p3.last().0 * pow2(p3.last().1 as nat));
            assert(p4.last() == (self.dst_pc, 0u32));
            assert(packed(p4) == packed(p3) + p4.last().0 * pow2(p4.last().1 as nat));
            assert(self.dst_pc * pow2(0) == self.dst_pc) by (nonlinear_arith)
                requires
                    pow2(0) == 1,
            ;
            assert(packed(p4) == br_if_encoding(*self));
        }
        pack(&parts)
    }

    /// Whether control goes on at `next_iid` as the branch at `iid` decides.
    pub fn check_pc_jump(&self, iid: u32, next_iid: u32) -> (r: bool)
        ensures
            r == pc_jump(self.condition, iid, self.dst_pc, next_iid),
    {
        if self.condition != 0 {
            next_iid as u64 == self.dst_pc
        } else {
            next_iid as u64 == iid as u64 + 1
        }
    }

    /// The cells of a step of a conditional branch.
    pub fn assign(entry: &EventTableEntry) -> (r: BrIfConfig)
        requires
            entry.step_info is BrIfNez,
        ensures
            r == br_if_cells(*entry),
            r.keep <= 1,
            r.drop <= u32::MAX,
    {
        match entry.step_info {
            StepInfo::BrIfNez { condition, dst_pc, drop, keep } => BrIfConfig {
                drop: drop as u64,
                keep: if keep.is_some() {
                    1
                } else {
                    0
                },
                keep_value: keep,
                condition: condition as u64,
                dst_pc: dst_pc as u64,
            },
            _ => BrIfConfig { drop: 0, keep: 0, keep_value: None, condition: 0, dst_pc: 0 },
        }
    }
}

/// A conditional branch reads its condition from the top of the stack
/// before anything else, and where it jumps it makes as many memory
/// accesses as its cells say.
pub proof fn lemma_br_if_memory(entry: EventTableEntry)
    requires
        entry.step_info is BrIfNez,
    ensures
        memory_events(entry).len() >= 1,
        memory_events(entry)[0] == stack_read(
            entry.eid,
            entry.sp + 1,
            VarType::I32,
            br_if_cells(entry).condition,
        ),
        br_if_cells(entry).condition != 0 ==> memory_events(entry).len() == br_if_cells(entry).keep
            * 2 + 1,
        br_if_cells(entry).condition == 0 ==> memory_events(entry).len() == 1,
{
}

} // verus!
