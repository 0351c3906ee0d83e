//! Memory consistency: every read sees what was last written to its
//! address.

use std::collections::HashMap;
use vstd::prelude::*;
use crate::runtime::crosses_block;
use crate::runtime::heap_access;
use crate::runtime::memory_events;
use crate::specs::etable::EventTableEntry;
use crate::specs::imtable::find;
use crate::specs::imtable::InitMemoryTable;
use crate::specs::imtable::InitMemoryTableEntry;
use crate::specs::mtable::AccessType;
use crate::specs::mtable::LocationType;
use crate::specs::mtable::MTable;
use crate::specs::mtable::MemoryTableEntry;
use crate::specs::mtable::VarType;

verus! {

/// What an address holds: a value and its type.
#[derive(Clone, Copy, Debug, PartialEq, Eq, Structural, Hash)]
pub struct MemoryCell {
    pub vtype: VarType,
    pub value: u64,
}

/// The number that stands for an address in a map: the address space in the
/// upper half, the offset in the lower.
pub open spec fn spec_location_key(ltype: LocationType, offset: u32) -> u64 {
    match ltype {
        LocationType::Stack => offset as u64,
        LocationType::Heap => (0x1_0000_0000 + offset) as u64,
        LocationType::Global => (0x2_0000_0000 + offset) as u64,
    }
}

#[verifier::when_used_as_spec(spec_location_key)]
pub fn location_key(ltype: LocationType, offset: u32) -> (r: u64)
    ensures
        r == spec_location_key(ltype, offset),
{
    match ltype {
        LocationType::Stack => offset as u64,
        LocationType::Heap => 0x1_0000_0000 + offset as u64,
        LocationType::Global => 0x2_0000_0000 + offset as u64,
    }
}

/// Different addresses have different keys.
pub proof fn lemma_location_key_injective(
    ltype1: LocationType,
    offset1: u32,
    ltype2: LocationType,
    offset2: u32,
)
    ensures
        spec_location_key(ltype1, offset1) == spec_location_key(ltype2, offset2) <==> ltype1
            == ltype2 && offset1 == offset2,
{
}

/// The memory that the initial memory table describes, by address key.
pub open spec fn image_state(imtable: Seq<InitMemoryTableEntry>) -> Map<u64, MemoryCell>
    decreases imtable.len(),
{
    if imtable.len() == 0 {
        Map::empty()
    } else {
        let last = imtable.last();
        image_state(imtable.drop_last()).insert(
            spec_location_key(last.ltype, last.offset),
            MemoryCell { vtype: last.vtype, value: last.value },
        )
    }
}

/// The memory after `ops`, where it was `state` before: every write and
/// every initial value among `ops` sets the value of its address.
pub open spec fn memory_after(state: Map<u64, MemoryCell>, ops: Seq<MemoryTableEntry>) -> Map<
    u64,
    MemoryCell,
>
    decreases ops.len(),
{
    if ops.len() == 0 {
        state
    } else {
        let last = ops.last();
        let before = memory_after(state, ops.drop_last());
        if last.spec_is_writing() {
            before.insert(
                spec_location_key(last.ltype, last.offset),
                MemoryCell { vtype: last.vtype, value: last.value },
            )
        } else {
            before
        }
    }
}

/// What a read of an address sees in `state`: the value that was set, and
/// zero on the heap where none was. A stack slot or a global that was never
/// set holds nothing that could be read.
pub open spec fn visible(state: Map<u64, MemoryCell>, ltype: LocationType, offset: u32) -> Option<
    MemoryCell,
> {
    if state.contains_key(spec_location_key(ltype, offset)) {
        Some(state[spec_location_key(ltype, offset)])
    } else if ltype == LocationType::Heap {
        Some(MemoryCell { vtype: VarType::I64, value: 0 })
    } else {
        None
    }
}

/// Whether access `i` of `ops`, if it is a read, sees the value and the type
/// that the accesses before it left at its address.
pub open spec fn read_consistent(state: Map<u64, MemoryCell>, ops: Seq<MemoryTableEntry>, i: int) -> bool {
    ops[i].atype == AccessType::Read ==> visible(
        memory_after(state, ops.take(i)),
        ops[i].ltype,
        ops[i].offset,
    ) == Some(MemoryCell { vtype: ops[i].vtype, value: ops[i].value })
}

/// Whether every read among `ops` sees what was last written to its address
/// or, where nothing was, the initial value.
pub open spec fn memory_consistent(imtable: Seq<InitMemoryTableEntry>, ops: Seq<MemoryTableEntry>) -> bool {
    forall|i: int| 0 <= i < ops.len() ==> #[trigger] read_consistent(image_state(imtable), ops, i)
}

/// The initial memory holds for every address what the table's entry for it
/// says, and nothing where the table has no entry.
pub proof fn lemma_image_state(imtable: Seq<InitMemoryTableEntry>, ltype: LocationType, offset: u32)
    ensures
        match find(imtable, ltype, offset) {
            Some(entry) => {
                let state = image_state(imtable);
                &&& state.contains_key(spec_location_key(ltype, offset))
                &&& state[spec_location_key(ltype, offset)] == MemoryCell {
                    vtype: entry.vtype,
                    value: entry.value,
                }
            },
            None => !image_state(imtable).contains_key(spec_location_key(ltype, offset)),
        },
    decreases imtable.len(),
{
    if imtable.len() > 0 {
        let last = imtable.last();
        lemma_image_state(imtable.drop_last(), ltype, offset);
        lemma_location_key_injective(last.ltype, last.offset, ltype, offset);
    }
}

/// Accesses that do not set the value of an address leave it as it was.
pub proof fn lemma_memory_untouched(
    state: Map<u64, MemoryCell>,
    ops: Seq<MemoryTableEntry>,
    ltype: LocationType,
    offset: u32,
)
    requires
        forall|k: int|
            0 <= k < ops.len() ==> !((#[trigger] ops[k]).spec_is_writing() && ops[k].ltype == ltype
                && ops[k].offset == offset),
    ensures
        visible(memory_after(state, ops), ltype, offset) == visible(state, ltype, offset),
    decreases ops.len(),
{
    if ops.len() > 0 {
        let last = ops.last();
        assert(ops.drop_last().len() == ops.len() - 1);
        assert forall|k: int| 0 <= k < ops.drop_last().len() implies !((
        #[trigger] ops.drop_last()[k]).spec_is_writing() && ops.drop_last()[k].ltype == ltype
            && ops.drop_last()[k].offset == offset) by {
            assert(ops.drop_last()[k] == ops[k]);
        }
        lemma_memory_untouched(state, ops.drop_last(), ltype, offset);
        lemma_location_key_injective(last.ltype, last.offset, ltype, offset);
    }
}

/// After a write to an address and accesses that do not set its value, the
/// address holds what was written.
pub proof fn lemma_memory_holds_latest_write(
    state: Map<u64, MemoryCell>,
    ops: Seq<MemoryTableEntry>,
    j: int,
)
    requires
        0 <= j < ops.len(),
        ops[j].spec_is_writing(),
        forall|k: int|
            j < k < ops.len() ==> !((#[trigger] ops[k]).spec_is_writing() && ops[k].ltype
                == ops[j].ltype && ops[k].offset == ops[j].offset),
    ensures
        visible(memory_after(state, ops), ops[j].ltype, ops[j].offset) == Some(
            MemoryCell { vtype: ops[j].vtype, value: ops[j].value },
        ),
    decreases ops.len(),
{
    let last = ops.last();
    if j < ops.len() - 1 {
        let rest = ops.drop_last();
        assert(rest[j] == ops[j]);
        assert forall|k: int| j < k < rest.len() implies !((#[trigger] rest[k]).spec_is_writing()
            && rest[k].ltype == rest[j].ltype && rest[k].offset == rest[j].offset) by {
            assert(rest[k] == ops[k]);
        }
        lemma_memory_holds_latest_write(state, rest, j);
        lemma_location_key_injective(last.ltype, last.offset, ops[j].ltype, ops[j].offset);
    }
}

/// In a consistent memory table, a read has the value and the type of the
/// latest earlier write to its address.
pub proof fn lemma_read_sees_latest_write(
    imtable: Seq<InitMemoryTableEntry>,
    ops: Seq<MemoryTableEntry>,
    j: int,
    i: int,
)
    requires
        memory_consistent(imtable, ops),
        0 <= j < i < ops.len(),
        ops[i].atype == AccessType::Read,
        ops[j].spec_is_writing(),
        ops[j].same_location(ops[i]),
        forall|k: int|
            j < k < i ==> !((#[trigger] ops[k]).spec_is_writing() && ops[k].same_location(ops[i])),
    ensures
        ops[i].value == ops[j].value,
        ops[i].vtype == ops[j].vtype,
{
    let before = ops.take(i);
    assert(read_consistent(image_state(imtable), ops, i));
    assert(before[j] == ops[j]);
    assert forall|k: int| j < k < before.len() implies !((#[trigger] before[k]).spec_is_writing()
        && before[k].ltype == before[j].ltype && before[k].offset == before[j].offset) by {
        assert(before[k] == ops[k]);
    }
    lemma_memory_holds_latest_write(image_state(imtable), before, j);
}

/// In a consistent memory table, a read that no write to its address comes
/// before has the initial value of the address: that of the initial memory
/// table, and zero on the heap where the table has none.
pub proof fn lemma_read_sees_initial_value(
    imtable: Seq<InitMemoryTableEntry>,
    ops: Seq<MemoryTableEntry>,
    i: int,
)
    requires
        memory_consistent(imtable, ops),
        0 <= i < ops.len(),
        ops[i].atype == AccessType::Read,
        forall|k: int|
            0 <= k < i ==> !((#[trigger] ops[k]).spec_is_writing() && ops[k].same_location(ops[i])),
    ensures
        match find(imtable, ops[i].ltype, ops[i].offset) {
            Some(entry) => ops[i].value == entry.value && ops[i].vtype == entry.vtype,
            None => ops[i].ltype == LocationType::Heap && ops[i].value == 0,
        },
{
    let before = ops.take(i);
    assert(read_consistent(image_state(imtable), ops, i));
    assert forall|k: int| 0 <= k < before.len() implies !((#[trigger] before[k]).spec_is_writing()
        && before[k].ltype == ops[i].ltype && before[k].offset == ops[i].offset) by {
        assert(before[k] == ops[k]);
    }
    lemma_memory_untouched(image_state(imtable), before, ops[i].ltype, ops[i].offset);
    lemma_image_state(imtable, ops[i].ltype, ops[i].offset);
}

/// A load sees what a store left: where a store into one heap block is
/// followed, after accesses that write nothing to that block, by a load from
/// the same block, and the memory table is consistent, the block that the
/// load reads is the block as the store left it.
pub proof fn lemma_load_sees_store(
    imtable: Seq<InitMemoryTableEntry>,
    before: Seq<MemoryTableEntry>,
    store: EventTableEntry,
    between: Seq<MemoryTableEntry>,
    load: EventTableEntry,
)
    requires
        store.step_info is Store,
        load.step_info is Load,
        !crosses_block(
            store.step_info->Store_effective_address,
            store.step_info->store_size.spec_byte_size(),
        ),
        !crosses_block(
            load.step_info->Load_effective_address,
            load.step_info->load_size.spec_byte_size(),
        ),
        store.step_info->Store_effective_address / 8 == load.step_info->Load_effective_address
            / 8,
        forall|k: int|
            0 <= k < between.len() ==> !((#[trigger] between[k]).spec_is_writing() && between[k].ltype
                == LocationType::Heap && between[k].offset == load.step_info->Load_effective_address
                / 8),
        memory_consistent(
            imtable,
            before + memory_events(store) + between + memory_events(load),
        ),
    ensures
        memory_events(load).len() == 3,
        memory_events(load)[1] == heap_access(
            load.eid,
            (load.step_info->Load_effective_address / 8) as int,
            AccessType::Read,
            load.step_info->block_value1,
        ),
        load.step_info->block_value1 == store.step_info->updated_block_value1,
{
    let written = memory_events(store);
    let read = memory_events(load);
    let ops = before + written + between + read;
    let j = (before.len() + 3) as int;
    let i = (before.len() + 4 + between.len() + 1) as int;
    assert(written.len() == 4 && read.len() == 3);
    assert(ops[j] == written[3]);
    assert(ops[i] == read[1]);
    assert forall|k: int| j < k < i implies !((#[trigger] ops[k]).spec_is_writing()
        && ops[k].same_location(ops[i])) by {
        if k < before.len() + 4 + between.len() {
            assert(ops[k] == between[k - before.len() - 4]);
        } else {
            assert(ops[k] == read[0]);
        }
    }
    lemma_read_sees_latest_write(imtable, ops, j, i);
}

/// Decides whether the memory table is consistent with the initial memory.
pub fn check_memory_consistency(imtable: &InitMemoryTable, mtable: &MTable) -> (r: bool)
    ensures
        r == memory_consistent(imtable@, mtable@),
{
    broadcast use vstd::std_specs::hash::group_hash_axioms;

    let mut state: HashMap<u64, MemoryCell> = HashMap::new();
    let init = imtable.entries();
    let mut i: usize = 0;
    while i < init.len()
        invariant
            i <= init.len(),
            state@ == image_state(init@.take(i as int)),
        decreases init.len() - i,
    {
        let entry = init[i];
        proof {
            assert(init@.take(i + 1).drop_last() =~= init@.take(i as int));
            assert(init@.take(i + 1).last() == entry);
        }
        state.insert(
            location_key(entry.ltype, entry.offset),
            MemoryCell { vtype: entry.vtype, value: entry.value },
        );
        i += 1;
    }
    proof {
        assert(init@.take(i as int) =~= init@);
    }
    let ghost state0 = state@;
    let ops = mtable.entries();
    let mut i: usize = 0;
    while i < ops.len()
        invariant
            i <= ops.len(),
            ops@ == mtable@,
            state0 == image_state(imtable@),
            state@ == memory_after(state0, ops@.take(i as int)),
            forall|k: int| 0 <= k < i ==> #[trigger] read_consistent(state0, ops@, k),
        decreases ops.len() - i,
    {
        let op = ops[i];
        let key = location_key(op.ltype, op.offset);
        proof {
            assert(ops@.take(i + 1).drop_last() =~= ops@.take(i as int));
            assert(ops@.take(i + 1).last() == op);
        }
        if op.atype == AccessType::Read {
            let seen = match state.get(&key) {
                Some(cell) => Some(*cell),
                None => if op.ltype == LocationType::Heap {
                    Some(MemoryCell { vtype: VarType::I64, value: 0 })
                } else {
                    None
                },
            };
            let consistent = match seen {
                Some(cell) => cell.vtype == op.vtype && cell.value == op.value,
                None => false,
            };
            if !consistent {
                proof {
                    assert(!read_consistent(state0, ops@, i as int));
                    if memory_consistent(imtable@, mtable@) {
                        assert(read_consistent(image_state(imtable@), mtable@, i as int));
                    }
                }
                return false;
            }
        } else {
            state.insert(key, MemoryCell { vtype: op.vtype, value: op.value });
        }
        i += 1;
    }
    true
}

} // verus!
