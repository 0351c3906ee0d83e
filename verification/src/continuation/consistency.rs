//! Memory consistency across slices: a run is consistent as a whole exactly
//! if every slice is consistent with the memory that the slices before it
//! left behind.

use vstd::prelude::*;
use crate::circuits::mtable::image_state;
use crate::circuits::mtable::memory_after;
use crate::circuits::mtable::memory_consistent;
use crate::circuits::mtable::read_consistent;
use crate::circuits::mtable::MemoryCell;
use crate::continuation::slice::eids_count_from;
use crate::runtime::all_memory_events;
use crate::runtime::lemma_all_memory_events_are_of_steps;
use crate::runtime::lemma_all_memory_events_in_step_order;
use crate::continuation::slice::image_after;
use crate::continuation::slice::image_at;
use crate::continuation::slice::joined_ops;
use crate::continuation::slice::lemma_joined_ops;
use crate::continuation::slice::lemma_slice_count;
use crate::continuation::slice::ops_within;
use crate::continuation::slice::slice_count;
use crate::continuation::slice::slice_events;
use crate::continuation::slice::slice_ops;
use crate::specs::imtable::InitMemoryTableEntry;
use crate::specs::mtable::ops_in_step_order;
use crate::specs::mtable::AccessType;
use crate::specs::mtable::MemoryTableEntry;
use crate::specs::tables::TablesView;

verus! {

/// Whether every read among `ops` sees what was last written to its
/// address, where the memory was `state` before them.
pub open spec fn consistent_from(state: Map<u64, MemoryCell>, ops: Seq<MemoryTableEntry>) -> bool {
    forall|i: int| 0 <= i < ops.len() ==> #[trigger] read_consistent(state, ops, i)
}

/// Whether the accesses are those of steps: reads and writes, no initial
/// values.
pub open spec fn steps_only(ops: Seq<MemoryTableEntry>) -> bool {
    forall|i: int| 0 <= i < ops.len() ==> (#[trigger] ops[i]).atype != AccessType::Init
}

/// The memory after accesses put one after the other is the memory after
/// the second, started from the memory after the first.
pub proof fn lemma_memory_after_add(
    state: Map<u64, MemoryCell>,
    a: Seq<MemoryTableEntry>,
    b: Seq<MemoryTableEntry>,
)
    ensures
        memory_after(state, a + b) == memory_after(memory_after(state, a), b),
    decreases b.len(),
{
    if b.len() == 0 {
        assert(a + b =~= a);
    } else {
        assert((a + b).drop_last() =~= a + b.drop_last());
        assert((a + b).last() == b.last());
        lemma_memory_after_add(state, a, b.drop_last());
    }
}

/// Accesses put one after the other are consistent exactly if the first are
/// and the second are with the memory that the first leave behind.
pub proof fn lemma_consistent_add(
    state: Map<u64, MemoryCell>,
    a: Seq<MemoryTableEntry>,
    b: Seq<MemoryTableEntry>,
)
    ensures
        consistent_from(state, a + b) <==> consistent_from(state, a) && consistent_from(
            memory_after(state, a),
            b,
        ),
{
    let all = a + b;
    assert forall|i: int| 0 <= i < a.len() implies (#[trigger] read_consistent(state, all, i)
        <==> read_consistent(state, a, i)) by {
        assert(all[i] == a[i]);
        assert(all.take(i) =~= a.take(i));
    }
    assert forall|i: int| 0 <= i < b.len() implies (#[trigger] read_consistent(
        memory_after(state, a),
        b,
        i,
    ) <==> read_consistent(state, all, a.len() + i)) by {
        assert(all[a.len() + i] == b[i]);
        assert(all.take(a.len() + i) =~= a + b.take(i));
        lemma_memory_after_add(state, a, b.take(i));
    }
    if consistent_from(state, all) {
        assert forall|i: int| 0 <= i < a.len() implies #[trigger] read_consistent(state, a, i) by {
            assert(read_consistent(state, all, i));
        }
        assert forall|i: int| 0 <= i < b.len() implies #[trigger] read_consistent(
            memory_after(state, a),
            b,
            i,
        ) by {
            assert(read_consistent(state, all, a.len() + i));
        }
    }
    if consistent_from(state, a) && consistent_from(memory_after(state, a), b) {
        assert forall|i: int| 0 <= i < all.len() implies #[trigger] read_consistent(
            state,
            all,
            i,
        ) by {
            if i < a.len() {
                assert(read_consistent(state, a, i));
            } else {
                assert(read_consistent(memory_after(state, a), b, i - a.len()));
            }
        }
    }
}

/// The initial memory that the accesses of steps leave behind describes the
/// memory after them.
pub proof fn lemma_image_is_memory(imtable: Seq<InitMemoryTableEntry>, ops: Seq<MemoryTableEntry>)
    requires
        steps_only(ops),
    ensures
        image_state(image_after(imtable, ops)) == memory_after(image_state(imtable), ops),
    decreases ops.len(),
{
    if ops.len() > 0 {
        let rest = ops.drop_last();
        assert forall|i: int| 0 <= i < rest.len() implies (#[trigger] rest[i]).atype
            != AccessType::Init by {
            assert(rest[i] == ops[i]);
        }
        lemma_image_is_memory(imtable, rest);
        let last = ops.last();
        assert(last == ops[ops.len() - 1]);
        if last.atype == AccessType::Write {
            let image = image_after(imtable, rest);
            let entry = InitMemoryTableEntry::spec_left_by(last);
            assert(image.push(entry).drop_last() =~= image);
            assert(image.push(entry).last() == entry);
        }
    }
}

/// What is picked out of accesses of steps are accesses of steps.
pub proof fn lemma_within_steps_only(ops: Seq<MemoryTableEntry>, lo: u32, hi: u32)
    requires
        steps_only(ops),
    ensures
        steps_only(ops_within(ops, lo, hi)),
    decreases ops.len(),
{
    if ops.len() > 0 {
        let rest = ops.drop_last();
        assert forall|i: int| 0 <= i < rest.len() implies (#[trigger] rest[i]).atype
            != AccessType::Init by {
            assert(rest[i] == ops[i]);
        }
        lemma_within_steps_only(rest, lo, hi);
        assert(ops.last() == ops[ops.len() - 1]);
    }
}

/// The initial memory that slice `k` starts from describes the memory after
/// the accesses of the slices before it.
pub proof fn lemma_image_at_is_memory(origin: TablesView, capacity: nat, k: nat)
    requires
        steps_only(origin.execution_tables.mtable),
    ensures
        image_state(image_at(origin, capacity, k)) == memory_after(
            image_state(origin.compilation_tables.imtable),
            joined_ops(
                origin.execution_tables.mtable,
                origin.execution_tables.etable,
                capacity,
                k,
            ),
        ),
    decreases k,
{
    let mtable = origin.execution_tables.mtable;
    let events = origin.execution_tables.etable;
    if k > 0 {
        let before = (k - 1) as nat;
        lemma_image_at_is_memory(origin, capacity, before);
        let chunk = slice_events(events, capacity, before);
        let ops = slice_ops(mtable, chunk);
        if chunk.len() > 0 {
            lemma_within_steps_only(mtable, chunk.first().eid, chunk.last().eid);
        }
        lemma_image_is_memory(image_at(origin, capacity, before), ops);
        lemma_memory_after_add(
            image_state(origin.compilation_tables.imtable),
            joined_ops(mtable, events, capacity, before),
            ops,
        );
    }
}

/// Whether the first `k` slices are consistent, each with the initial
/// memory it starts from.
pub open spec fn slices_consistent(origin: TablesView, capacity: nat, k: nat) -> bool {
    forall|j: nat|
        j < k ==> #[trigger] memory_consistent(
            image_at(origin, capacity, j),
            slice_ops(
                origin.execution_tables.mtable,
                slice_events(origin.execution_tables.etable, capacity, j),
            ),
        )
}

/// The accesses of the first `k` slices are consistent as a whole exactly
/// if each of these slices is consistent with the initial memory it starts
/// from.
pub proof fn lemma_joined_consistent(origin: TablesView, capacity: nat, k: nat)
    requires
        steps_only(origin.execution_tables.mtable),
    ensures
        memory_consistent(
            origin.compilation_tables.imtable,
            joined_ops(
                origin.execution_tables.mtable,
                origin.execution_tables.etable,
                capacity,
                k,
            ),
        ) <==> slices_consistent(origin, capacity, k),
    decreases k,
{
    let mtable = origin.execution_tables.mtable;
    let events = origin.execution_tables.etable;
    let state = image_state(origin.compilation_tables.imtable);
    if k > 0 {
        let before = (k - 1) as nat;
        lemma_joined_consistent(origin, capacity, before);
        let joined = joined_ops(mtable, events, capacity, before);
        let ops = slice_ops(mtable, slice_events(events, capacity, before));
        lemma_consistent_add(state, joined, ops);
        lemma_image_at_is_memory(origin, capacity, before);
        assert(consistent_from(memory_after(state, joined), ops) <==> memory_consistent(
            image_at(origin, capacity, before),
            ops,
        ));
        assert(consistent_from(state, joined) <==> memory_consistent(
            origin.compilation_tables.imtable,
            joined,
        ));
        assert(consistent_from(state, joined + ops) <==> memory_consistent(
            origin.compilation_tables.imtable,
            joined_ops(mtable, events, capacity, k),
        ));
        if slices_consistent(origin, capacity, k) {
            assert(memory_consistent(image_at(origin, capacity, before), ops));
            assert forall|j: nat| j < before implies #[trigger] memory_consistent(
                image_at(origin, capacity, j),
                slice_ops(mtable, slice_events(events, capacity, j)),
            ) by {}
        }
        if slices_consistent(origin, capacity, before) && memory_consistent(
            image_at(origin, capacity, before),
            ops,
        ) {
            assert forall|j: nat| j < k implies #[trigger] memory_consistent(
                image_at(origin, capacity, j),
                slice_ops(mtable, slice_events(events, capacity, j)),
            ) by {}
        }
    }
}

/// Accesses that all lie within a span are what is picked out by it.
pub proof fn lemma_within_all(ops: Seq<MemoryTableEntry>, lo: u32, hi: u32)
    requires
        forall|i: int| 0 <= i < ops.len() ==> lo <= (#[trigger] ops[i]).eid <= hi,
    ensures
        ops_within(ops, lo, hi) == ops,
    decreases ops.len(),
{
    if ops.len() > 0 {
        let rest = ops.drop_last();
        assert forall|i: int| 0 <= i < rest.len() implies lo <= (#[trigger] rest[i]).eid <= hi by {
            assert(rest[i] == ops[i]);
        }
        lemma_within_all(rest, lo, hi);
        assert(ops.last() == ops[ops.len() - 1]);
        assert(ops_within(ops, lo, hi) =~= ops);
    }
}

/// Slicing keeps memory consistency and adds none: a run whose steps are
/// numbered from 1 without a gap, and whose memory table lists the accesses
/// of these steps in their order, is consistent as a whole exactly if every
/// slice of it is consistent with the initial memory that the slices before
/// it left behind.
pub proof fn lemma_slices_are_consistent_as_the_run_is(origin: TablesView, capacity: nat)
    requires
        capacity > 0,
        eids_count_from(origin.execution_tables.etable, 1),
        ops_in_step_order(origin.execution_tables.mtable),
        steps_only(origin.execution_tables.mtable),
        forall|i: int|
            0 <= i < origin.execution_tables.mtable.len() ==> 1 <= (
            #[trigger] origin.execution_tables.mtable[i]).eid
                <= origin.execution_tables.etable.len(),
    ensures
        memory_consistent(origin.compilation_tables.imtable, origin.execution_tables.mtable)
            <==> slices_consistent(
            origin,
            capacity,
            slice_count(origin.execution_tables.etable.len(), capacity),
        ),
{
    let mtable = origin.execution_tables.mtable;
    let events = origin.execution_tables.etable;
    let count = slice_count(events.len(), capacity);
    lemma_joined_consistent(origin, capacity, count);
    lemma_joined_ops(mtable, events, capacity, count);
    lemma_slice_count(events.len(), capacity, count);
    if events.len() > 0 {
        assert(events[events.len() - 1].eid == events.len());
    }
    if mtable.len() > 0 {
        assert(1 <= mtable[0].eid <= events.len());
    }
    if events.len() > 0 {
        lemma_within_all(mtable, 1, events.len() as u32);
    } else {
        assert(mtable.len() == 0);
        assert(ops_within(mtable, 1, 0) =~= mtable);
    }
}

/// The memory table that is derived from the steps of a run is one that
/// slicing keeps consistent: where the steps are numbered from 1 without a
/// gap, the run is consistent exactly if every slice is.
pub proof fn lemma_slices_of_a_run_are_consistent_as_the_run_is(origin: TablesView, capacity: nat)
    requires
        capacity > 0,
        eids_count_from(origin.execution_tables.etable, 1),
        origin.execution_tables.mtable == all_memory_events(origin.execution_tables.etable),
    ensures
        memory_consistent(origin.compilation_tables.imtable, origin.execution_tables.mtable)
            <==> slices_consistent(
            origin,
            capacity,
            slice_count(origin.execution_tables.etable.len(), capacity),
        ),
{
    let events = origin.execution_tables.etable;
    let mtable = origin.execution_tables.mtable;
    lemma_all_memory_events_in_step_order(events);
    assert forall|j: int| 0 <= j < mtable.len() implies (#[trigger] mtable[j]).atype
        != AccessType::Init && 1 <= mtable[j].eid <= events.len() by {
        lemma_all_memory_events_are_of_steps(events, j);
    }
    lemma_slices_are_consistent_as_the_run_is(origin, capacity);
}

} // verus!
