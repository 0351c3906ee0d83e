//! Memory table entries: one record per stack, heap or global access that an
//! executed step implies.

use vstd::prelude::*;

verus! {

/// The address space an access falls into.
#[derive(Clone, Copy, Debug, PartialEq, Eq, Structural, Hash)]
pub enum LocationType {
    Stack,
    Heap,
    Global,
}

/// What an entry of the memory table does to its address. `Init` marks the
/// value an address holds before the first step of a slice.
#[derive(Clone, Copy, Debug, PartialEq, Eq, Structural, Hash)]
pub enum AccessType {
    Read,
    Write,
    Init,
}

/// The type of a value as the circuit sees it.
#[derive(Clone, Copy, Debug, PartialEq, Eq, Structural, Hash)]
pub enum VarType {
    I64,
    I32,
}

/// The type of a value as the interpreter sees it.
#[derive(Clone, Copy, Debug, PartialEq, Eq, Structural, Hash)]
pub enum ValueType {
    I32,
    I64,
}

impl VarType {
    pub open spec fn of(vtype: ValueType) -> VarType {
        match vtype {
            ValueType::I32 => VarType::I32,
            ValueType::I64 => VarType::I64,
        }
    }
}

impl From<ValueType> for VarType {
    fn from(vtype: ValueType) -> (r: VarType) {
        match vtype {
            ValueType::I32 => VarType::I32,
            ValueType::I64 => VarType::I64,
        }
    }
}

impl vstd::std_specs::convert::FromSpecImpl<ValueType> for VarType {
    open spec fn obeys_from_spec() -> bool {
        true
    }

    open spec fn from_spec(vtype: ValueType) -> VarType {
        VarType::of(vtype)
    }
}

/// How many bytes a load reads, and how it widens them.
#[derive(Clone, Copy, Debug, PartialEq, Eq, Structural, Hash)]
pub enum MemoryReadSize {
    U8,
    S8,
    U16,
    S16,
    U32,
    S32,
    I64,
}

impl MemoryReadSize {
    pub open spec fn spec_byte_size(self) -> u32 {
        match self {
            MemoryReadSize::U8 => 1,
            MemoryReadSize::S8 => 1,
            MemoryReadSize::U16 => 2,
            MemoryReadSize::S16 => 2,
            MemoryReadSize::U32 => 4,
            MemoryReadSize::S32 => 4,
            MemoryReadSize::I64 => 8,
        }
    }

    #[verifier::when_used_as_spec(spec_byte_size)]
    pub fn byte_size(self) -> (r: u32)
        ensures
            r == self.spec_byte_size(),
            1 <= r <= 8,
    {
        match self {
            MemoryReadSize::U8 => 1,
            MemoryReadSize::S8 => 1,
            MemoryReadSize::U16 => 2,
            MemoryReadSize::S16 => 2,
            MemoryReadSize::U32 => 4,
            MemoryReadSize::S32 => 4,
            MemoryReadSize::I64 => 8,
        }
    }
}

/// How many bytes a store writes.
#[derive(Clone, Copy, Debug, PartialEq, Eq, Structural, Hash)]
pub enum MemoryStoreSize {
    Byte8,
    Byte16,
    Byte32,
    Byte64,
}

impl MemoryStoreSize {
    pub open spec fn spec_byte_size(self) -> u32 {
        match self {
            MemoryStoreSize::Byte8 => 1,
            MemoryStoreSize::Byte16 => 2,
            MemoryStoreSize::Byte32 => 4,
            MemoryStoreSize::Byte64 => 8,
        }
    }

    #[verifier::when_used_as_spec(spec_byte_size)]
    pub fn byte_size(self) -> (r: u32)
        ensures
            r == self.spec_byte_size(),
            1 <= r <= 8,
    {
        match self {
            MemoryStoreSize::Byte8 => 1,
            MemoryStoreSize::Byte16 => 2,
            MemoryStoreSize::Byte32 => 4,
            MemoryStoreSize::Byte64 => 8,
        }
    }
}

/// One access to one address. Heap offsets count 8-byte blocks, stack
/// offsets count slots, global offsets are global indices.
#[derive(Clone, Copy, Debug, PartialEq, Eq, Structural, Hash)]
pub struct MemoryTableEntry {
    pub eid: u32,
    pub offset: u32,
    pub ltype: LocationType,
    pub atype: AccessType,
    pub vtype: VarType,
    pub is_mutable: bool,
    pub value: u64,
}

impl MemoryTableEntry {
    /// Whether two entries speak of the same address.
    pub open spec fn same_location(self, other: MemoryTableEntry) -> bool {
        self.ltype == other.ltype && self.offset == other.offset
    }

    /// Whether the entry sets the value of its address: a write or an
    /// initial value.
    pub open spec fn spec_is_writing(self) -> bool {
        self.atype != AccessType::Read
    }

    #[verifier::when_used_as_spec(spec_is_writing)]
    pub fn is_writing(self) -> (r: bool)
        ensures
            r == self.spec_is_writing(),
    {
        self.atype != AccessType::Read
    }
}

} // verus!

verus! {

/// How many of `ops` are writes.
pub open spec fn count_writes(ops: Seq<MemoryTableEntry>) -> nat
    decreases ops.len(),
{
    if ops.len() == 0 {
        0
    } else {
        count_writes(ops.drop_last()) + if ops.last().atype == AccessType::Write {
            1nat
        } else {
            0nat
        }
    }
}

pub broadcast proof fn lemma_count_writes_empty()
    ensures
        #[trigger] count_writes(Seq::<MemoryTableEntry>::empty()) == 0,
{
}

pub broadcast proof fn lemma_count_writes_push(ops: Seq<MemoryTableEntry>, op: MemoryTableEntry)
    ensures
        #[trigger] count_writes(ops.push(op)) == count_writes(ops) + if op.atype
            == AccessType::Write {
            1nat
        } else {
            0nat
        },
{
    assert(ops.push(op).drop_last() =~= ops);
}

pub broadcast proof fn lemma_count_writes_add(a: Seq<MemoryTableEntry>, b: Seq<MemoryTableEntry>)
    ensures
        #[trigger] count_writes(a + b) == count_writes(a) + count_writes(b),
    decreases b.len(),
{
    if b.len() == 0 {
        assert(a + b =~= a);
    } else {
        assert((a + b).drop_last() =~= a + b.drop_last());
        lemma_count_writes_add(a, b.drop_last());
    }
}

pub broadcast group group_count_writes {
    lemma_count_writes_empty,
    lemma_count_writes_push,
    lemma_count_writes_add,
}

} // verus!

verus! {

/// The memory table of a run or of a slice of it, in the order in which the
/// steps made the accesses.
#[derive(Debug, PartialEq, Eq)]
pub struct MTable(Vec<MemoryTableEntry>);

impl View for MTable {
    type V = Seq<MemoryTableEntry>;

    closed spec fn view(&self) -> Seq<MemoryTableEntry> {
        self.0@
    }
}

impl Default for MTable {
    fn default() -> (r: Self)
        ensures
            r@ == Seq::<MemoryTableEntry>::empty(),
    {
        MTable(Vec::new())
    }
}

impl Clone for MTable {
    fn clone(&self) -> (r: Self)
        ensures
            r@ == self@,
    {
        MTable(self.0.clone())
    }
}

impl MTable {
    pub fn new(entries: Vec<MemoryTableEntry>) -> (r: Self)
        ensures
            r@ == entries@,
    {
        MTable(entries)
    }

    pub fn entries(&self) -> (r: &Vec<MemoryTableEntry>)
        ensures
            r@ == self@,
    {
        &self.0
    }
}

} // verus!

verus! {

/// How many of `ops` are reads.
pub open spec fn count_reads(ops: Seq<MemoryTableEntry>) -> nat
    decreases ops.len(),
{
    if ops.len() == 0 {
        0
    } else {
        count_reads(ops.drop_last()) + if ops.last().atype == AccessType::Read {
            1nat
        } else {
            0nat
        }
    }
}

/// Reads and writes are counted among the accesses, each once.
pub proof fn lemma_counts_within_len(ops: Seq<MemoryTableEntry>)
    ensures
        count_reads(ops) + count_writes(ops) <= ops.len(),
    decreases ops.len(),
{
    if ops.len() > 0 {
        lemma_counts_within_len(ops.drop_last());
    }
}

} // verus!

verus! {

/// Whether the accesses are listed in the order of the steps: the execution
/// ids never fall.
pub open spec fn ops_in_step_order(ops: Seq<MemoryTableEntry>) -> bool {
    forall|i: int, j: int|
        0 <= i <= j < ops.len() ==> (#[trigger] ops[i]).eid <= (#[trigger] ops[j]).eid
}

} // verus!
