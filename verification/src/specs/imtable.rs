//! The initial memory table: the value of every global, heap block and stack
//! slot that is set before the first step of a slice.

use vstd::prelude::*;
use crate::specs::mtable::AccessType;
use crate::specs::mtable::LocationType;
use crate::specs::mtable::MemoryTableEntry;
use crate::specs::mtable::VarType;

verus! {

/// The value of one address before the first step. `eid` is the execution
/// id of the step that wrote the value, 0 for a value of the module itself.
#[derive(Clone, Copy, Debug, PartialEq, Eq, Structural, Hash)]
pub struct InitMemoryTableEntry {
    pub ltype: LocationType,
    pub is_mutable: bool,
    pub offset: u32,
    pub vtype: VarType,
    pub value: u64,
    pub eid: u32,
}

impl InitMemoryTableEntry {
    /// The initial value that a writing access leaves behind.
    pub open spec fn spec_left_by(op: MemoryTableEntry) -> InitMemoryTableEntry {
        InitMemoryTableEntry {
            ltype: op.ltype,
            is_mutable: op.is_mutable,
            offset: op.offset,
            vtype: op.vtype,
            value: op.value,
            eid: op.eid,
        }
    }

    #[verifier::when_used_as_spec(spec_left_by)]
    pub fn left_by(op: MemoryTableEntry) -> (r: InitMemoryTableEntry)
        ensures
            r == InitMemoryTableEntry::spec_left_by(op),
    {
        InitMemoryTableEntry {
            ltype: op.ltype,
            is_mutable: op.is_mutable,
            offset: op.offset,
            vtype: op.vtype,
            value: op.value,
            eid: op.eid,
        }
    }

    /// The entry as the memory table lists it.
    pub open spec fn spec_as_init(self) -> MemoryTableEntry {
        MemoryTableEntry {
            eid: self.eid,
            offset: self.offset,
            ltype: self.ltype,
            atype: AccessType::Init,
            vtype: self.vtype,
            is_mutable: self.is_mutable,
            value: self.value,
        }
    }

    #[verifier::when_used_as_spec(spec_as_init)]
    pub fn as_init(self) -> (r: MemoryTableEntry)
        ensures
            r == self.spec_as_init(),
    {
        MemoryTableEntry {
            eid: self.eid,
            offset: self.offset,
            ltype: self.ltype,
            atype: AccessType::Init,
            vtype: self.vtype,
            is_mutable: self.is_mutable,
            value: self.value,
        }
    }
}

/// The entry that `entries` holds for an address: the last one listed for
/// it, so that a later entry replaces an earlier one.
pub open spec fn find(entries: Seq<InitMemoryTableEntry>, ltype: LocationType, offset: u32) -> Option<
    InitMemoryTableEntry,
>
    decreases entries.len(),
{
    if entries.len() == 0 {
        None
    } else if entries.last().ltype == ltype && entries.last().offset == offset {
        Some(entries.last())
    } else {
        find(entries.drop_last(), ltype, offset)
    }
}

/// The initial memory of a slice. The table is a log: an entry that is
/// appended replaces what the table held for its address.
#[derive(Debug, PartialEq, Eq)]
pub struct InitMemoryTable(Vec<InitMemoryTableEntry>);

impl View for InitMemoryTable {
    type V = Seq<InitMemoryTableEntry>;

    closed spec fn view(&self) -> Seq<InitMemoryTableEntry> {
        self.0@
    }
}

impl Default for InitMemoryTable {
    fn default() -> (r: Self)
        ensures
            r@ == Seq::<InitMemoryTableEntry>::empty(),
    {
        InitMemoryTable(Vec::new())
    }
}

impl Clone for InitMemoryTable {
    fn clone(&self) -> (r: Self)
        ensures
            r@ == self@,
    {
        InitMemoryTable(self.0.clone())
    }
}

impl InitMemoryTable {
    pub fn new(entries: Vec<InitMemoryTableEntry>) -> (r: Self)
        ensures
            r@ == entries@,
    {
        InitMemoryTable(entries)
    }

    pub fn entries(&self) -> (r: &Vec<InitMemoryTableEntry>)
        ensures
            r@ == self@,
    {
        &self.0
    }

    /// Sets the value of the entry's address.
    pub fn push(&mut self, entry: InitMemoryTableEntry)
        ensures
            final(self)@ == old(self)@.push(entry),
    {
        self.0.push(entry)
    }

    /// The entry of an address, if the table holds one.
    pub fn try_find(&self, ltype: LocationType, offset: u32) -> (r: Option<InitMemoryTableEntry>)
        ensures
            r == find(self@, ltype, offset),
    {
        let mut i = self.0.len();
        proof {
            assert(self.0@.take(i as int) =~= self.0@);
        }
        while i > 0
            invariant
                i <= self.0.len(),
                find(self.0@, ltype, offset) == find(self.0@.take(i as int), ltype, offset),
            decreases i,
        {
            i -= 1;
            let entry = self.0[i];
            proof {
                assert(self.0@.take(i + 1).drop_last() =~= self.0@.take(i as int));
                assert(self.0@.take(i + 1).last() == entry);
            }
            if entry.ltype == ltype && entry.offset == offset {
                return Some(entry);
            }
        }
        None
    }

    /// The first heap block from which on the table holds no value: the heap
    /// reads as zero from there.
    pub fn first_consecutive_zero_memory(&self) -> (r: u64)
        ensures
            r == first_zero_block(self@),
    {
        let mut first: u64 = 0;
        let mut i: usize = 0;
        while i < self.0.len()
            invariant
                i <= self.0.len(),
                first == first_zero_block(self.0@.take(i as int)),
            decreases self.0.len() - i,
        {
            let entry = self.0[i];
            proof {
                assert(self.0@.take(i + 1).drop_last() =~= self.0@.take(i as int));
                assert(self.0@.take(i + 1).last() == entry);
            }
            if entry.ltype == LocationType::Heap && entry.offset as u64 + 1 > first {
                first = entry.offset as u64 + 1;
            }
            i += 1;
        }
        proof {
            assert(self.0@.take(self.0.len() as int) =~= self.0@);
        }
        first
    }
}

/// One more than the highest heap block that `entries` hold a value for; 0
/// where they hold none.
pub open spec fn first_zero_block(entries: Seq<InitMemoryTableEntry>) -> u64
    decreases entries.len(),
{
    if entries.len() == 0 {
        0
    } else {
        let before = first_zero_block(entries.drop_last());
        let last = entries.last();
        if last.ltype == LocationType::Heap && last.offset + 1 > before {
            (last.offset + 1) as u64
        } else {
            before
        }
    }
}

/// No heap block at or after the first zero block has an entry.
pub proof fn lemma_first_zero_block(entries: Seq<InitMemoryTableEntry>, offset: u32)
    requires
        offset >= first_zero_block(entries),
    ensures
        find(entries, LocationType::Heap, offset) is None,
    decreases entries.len(),
{
    if entries.len() > 0 {
        lemma_first_zero_block(entries.drop_last(), offset);
    }
}

} // verus!
