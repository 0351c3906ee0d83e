//! The memory writing table, and the event table joined with it.
//!
//! Every value that is written stands from the step that writes it until
//! the next step that writes the same address. The table gives each access
//! the span of the value it belongs to: a write its own, a read that of the
//! value it sees.

use std::collections::HashMap;
use vstd::prelude::*;
use crate::circuits::mtable::location_key;
use crate::circuits::mtable::spec_location_key;
use crate::runtime::all_memory_events;
use crate::runtime::in_range;
use crate::runtime::memory_event_of_step;
use crate::runtime::memory_events;
use crate::specs::etable::EventTable;
use crate::specs::etable::EventTableEntry;
use crate::specs::imtable::InitMemoryTable;
use crate::specs::imtable::InitMemoryTableEntry;
use crate::specs::mtable::MemoryTableEntry;

verus! {

/// One access together with the span of the value it belongs to: from the
/// step `start_eid` that wrote the value to the step `end_eid` that writes
/// the address next.
#[derive(Clone, Copy, Debug, PartialEq, Eq, Structural, Hash)]
pub struct MemoryRWEntry {
    pub entry: MemoryTableEntry,
    pub start_eid: u32,
    pub end_eid: u32,
}

/// One value that was written or set initially, and the step until which it
/// stands. `index` is the position of the entry in the table.
#[derive(Clone, Copy, Debug, PartialEq, Eq, Structural, Hash)]
pub struct MemoryWritingEntry {
    pub index: usize,
    pub entry: MemoryTableEntry,
    pub end_eid: u32,
}

/// The values that were written or set initially, in the order in which
/// they were.
#[derive(Debug, PartialEq, Eq)]
pub struct MemoryWritingTable(pub Vec<MemoryWritingEntry>);

/// One step with its memory accesses.
#[derive(Debug, PartialEq, Eq)]
pub struct EventTableEntryWithMemoryInfo {
    pub eentry: EventTableEntry,
    pub memory_rw_entires: Vec<MemoryRWEntry>,
}

/// The steps of a slice with their memory accesses.
#[derive(Debug, PartialEq, Eq)]
pub struct EventTableWithMemoryInfo(pub Vec<EventTableEntryWithMemoryInfo>);

impl EventTableWithMemoryInfo {
    /// The steps alone.
    pub open spec fn events(&self) -> Seq<EventTableEntry> {
        Seq::new(self.0@.len(), |i: int| self.0@[i].eentry)
    }
}

/// For every address, the execution id of the last of the first `i`
/// accesses that sets its value.
pub open spec fn writers_before(ops: Seq<MemoryTableEntry>, i: int) -> Map<u64, u32>
    decreases i,
{
    if i <= 0 {
        Map::empty()
    } else {
        let op = ops[i - 1];
        let before = writers_before(ops, i - 1);
        if op.spec_is_writing() {
            before.insert(spec_location_key(op.ltype, op.offset), op.eid)
        } else {
            before
        }
    }
}

/// For every address, the execution id of the first access from access `i`
/// on that sets its value.
pub open spec fn writers_from(ops: Seq<MemoryTableEntry>, i: int) -> Map<u64, u32>
    decreases ops.len() - i,
{
    if i >= ops.len() {
        Map::empty()
    } else {
        let op = ops[i];
        let after = writers_from(ops, i + 1);
        if op.spec_is_writing() {
            after.insert(spec_location_key(op.ltype, op.offset), op.eid)
        } else {
            after
        }
    }
}

/// The span of the value that access `i` belongs to. A read before any
/// write of its address belongs to a value that stands from step 0; a value
/// that is never replaced stands until `maximal_eid`.
pub open spec fn span_at(ops: Seq<MemoryTableEntry>, maximal_eid: u32, i: int) -> MemoryRWEntry {
    let op = ops[i];
    let key = spec_location_key(op.ltype, op.offset);
    MemoryRWEntry {
        entry: op,
        start_eid: if op.spec_is_writing() {
            op.eid
        } else if writers_before(ops, i).contains_key(key) {
            writers_before(ops, i)[key]
        } else {
            0
        },
        end_eid: if writers_from(ops, i + 1).contains_key(key) {
            writers_from(ops, i + 1)[key]
        } else {
            maximal_eid
        },
    }
}

/// The spans of all accesses.
pub open spec fn spans(ops: Seq<MemoryTableEntry>, maximal_eid: u32) -> Seq<MemoryRWEntry> {
    Seq::new(ops.len(), |i: int| span_at(ops, maximal_eid, i))
}

/// Gives every access the span of the value it belongs to.
pub fn memory_spans(ops: &Vec<MemoryTableEntry>, maximal_eid: u32) -> (r: Vec<MemoryRWEntry>)
    ensures
        r@ == spans(ops@, maximal_eid),
{
    broadcast use vstd::std_specs::hash::group_hash_axioms;

    let n = ops.len();
    let mut ends: Vec<u32> = vec![0; n];
    let mut next: HashMap<u64, u32> = HashMap::new();
    let mut i: usize = n;
    while i > 0
        invariant
            i <= n,
            n == ops@.len(),
            ends@.len() == n,
            next@ == writers_from(ops@, i as int),
            forall|j: int| i <= j < n ==> #[trigger] ends@[j] == span_at(ops@, maximal_eid, j).end_eid,
        decreases i,
    {
        i -= 1;
        let op = ops[i];
        let key = location_key(op.ltype, op.offset);
        let end = match next.get(&key) {
            Some(eid) => *eid,
            None => maximal_eid,
        };
        ends.set(i, end);
        if op.is_writing() {
            next.insert(key, op.eid);
        }
    }
    let mut out: Vec<MemoryRWEntry> = Vec::new();
    let mut prev: HashMap<u64, u32> = HashMap::new();
    let mut i: usize = 0;
    while i < n
        invariant
            i <= n,
            n == ops@.len(),
            ends@.len() == n,
            prev@ == writers_before(ops@, i as int),
            forall|j: int| 0 <= j < n ==> #[trigger] ends@[j] == span_at(ops@, maximal_eid, j).end_eid,
            out@ == Seq::new(i as nat, |j: int| span_at(ops@, maximal_eid, j)),
        decreases n - i,
    {
        let op = ops[i];
        let key = location_key(op.ltype, op.offset);
        let start = if op.is_writing() {
            op.eid
        } else {
            match prev.get(&key) {
                Some(eid) => *eid,
                None => 0,
            }
        };
        out.push(MemoryRWEntry { entry: op, start_eid: start, end_eid: ends[i] });
        if op.is_writing() {
            prev.insert(key, op.eid);
        }
        i += 1;
        proof {
            assert(out@ =~= Seq::new(i as nat, |j: int| span_at(ops@, maximal_eid, j)));
        }
    }
    out
}

/// The values among the first `i` spans that were written or set initially,
/// each with its position among them.
pub open spec fn writing_entries(spans: Seq<MemoryRWEntry>, i: int) -> Seq<MemoryWritingEntry>
    decreases i,
{
    if i <= 0 {
        Seq::empty()
    } else {
        let before = writing_entries(spans, i - 1);
        let span = spans[i - 1];
        if span.entry.spec_is_writing() {
            before.push(
                MemoryWritingEntry {
                    index: before.len() as usize,
                    entry: span.entry,
                    end_eid: span.end_eid,
                },
            )
        } else {
            before
        }
    }
}

impl MemoryWritingTable {
    /// The memory writing table of the accesses `ops`.
    pub fn new(ops: &Vec<MemoryTableEntry>, maximal_eid: u32) -> (r: Self)
        ensures
            r.0@ == writing_entries(spans(ops@, maximal_eid), ops@.len() as int),
    {
        let all = memory_spans(ops, maximal_eid);
        let mut entries: Vec<MemoryWritingEntry> = Vec::new();
        let mut i: usize = 0;
        while i < all.len()
            invariant
                i <= all.len(),
                all@.len() == ops@.len(),
                entries@ == writing_entries(all@, i as int),
                entries@.len() <= i,
            decreases all.len() - i,
        {
            let span = all[i];
            if span.entry.is_writing() {
                entries.push(
                    MemoryWritingEntry {
                        index: entries.len(),
                        entry: span.entry,
                        end_eid: span.end_eid,
                    },
                );
            }
            i += 1;
        }
        MemoryWritingTable(entries)
    }
}

/// The number that stands for the address of an entry.
pub open spec fn key_of(entry: MemoryWritingEntry) -> u64 {
    spec_location_key(entry.entry.ltype, entry.entry.offset)
}

/// Whether the entries are grouped by address, the addresses in growing
/// order of their keys.
pub open spec fn sorted_by_address(entries: Seq<MemoryWritingEntry>) -> bool {
    forall|i: int, j: int|
        0 <= i <= j < entries.len() ==> key_of(#[trigger] entries[i]) <= key_of(
            #[trigger] entries[j],
        )
}

/// The values of one address, in the order of the entries: each value with
/// the step until which it stands.
pub open spec fn at_address(entries: Seq<MemoryWritingEntry>, key: u64) -> Seq<
    (MemoryTableEntry, u32),
>
    decreases entries.len(),
{
    if entries.len() == 0 {
        Seq::empty()
    } else {
        let before = at_address(entries.drop_last(), key);
        let last = entries.last();
        if key_of(last) == key {
            before.push((last.entry, last.end_eid))
        } else {
            before
        }
    }
}

/// The values of an address among entries put one after the other are its
/// values among the first followed by its values among the second.
pub proof fn lemma_at_address_add(
    a: Seq<MemoryWritingEntry>,
    b: Seq<MemoryWritingEntry>,
    key: u64,
)
    ensures
        at_address(a + b, key) == at_address(a, key) + at_address(b, key),
    decreases b.len(),
{
    if b.len() == 0 {
        assert(a + b =~= a);
        assert(at_address(a, key) + at_address(b, key) =~= at_address(a, key));
    } else {
        assert((a + b).drop_last() =~= a + b.drop_last());
        lemma_at_address_add(a, b.drop_last(), key);
        assert(at_address(a + b, key) =~= at_address(a, key) + at_address(b, key));
    }
}

/// Entries below an address hold no value of it.
pub proof fn lemma_at_address_below(entries: Seq<MemoryWritingEntry>, key: u64)
    requires
        forall|i: int| 0 <= i < entries.len() ==> key_of(#[trigger] entries[i]) < key,
    ensures
        at_address(entries, key) == Seq::<(MemoryTableEntry, u32)>::empty(),
    decreases entries.len(),
{
    if entries.len() > 0 {
        assert(key_of(entries[entries.len() - 1]) < key);
        assert forall|i: int| 0 <= i < entries.drop_last().len() implies key_of(
            #[trigger] entries.drop_last()[i],
        ) < key by {
            assert(entries.drop_last()[i] == entries[i]);
        }
        lemma_at_address_below(entries.drop_last(), key);
    }
}

/// Merges two tables that are grouped by address into one that is. Where
/// both hold values of an address, those of the first come first.
fn merge(a: &Vec<MemoryWritingEntry>, b: &Vec<MemoryWritingEntry>) -> (r: Vec<MemoryWritingEntry>)
    requires
        sorted_by_address(a@),
        sorted_by_address(b@),
        a@.len() + b@.len() <= usize::MAX,
    ensures
        sorted_by_address(r@),
        r@.len() == a@.len() + b@.len(),
        forall|key: u64| #[trigger]
            at_address(r@, key) == at_address(a@, key) + at_address(b@, key),
{
    let mut out: Vec<MemoryWritingEntry> = Vec::new();
    let mut i: usize = 0;
    let mut j: usize = 0;
    proof {
        assert(a@.take(0) =~= Seq::empty());
        assert(b@.take(0) =~= Seq::empty());
        assert forall|key: u64| #[trigger]
            at_address(out@, key) == at_address(a@.take(0), key) + at_address(
                b@.take(0),
                key,
            ) by {
            assert(at_address(out@, key) =~= at_address(a@.take(0), key) + at_address(
                b@.take(0),
                key,
            ));
        }
    }
    while i < a.len() || j < b.len()
        invariant
            i <= a@.len(),
            j <= b@.len(),
            a@.len() + b@.len() <= usize::MAX,
            sorted_by_address(a@),
            sorted_by_address(b@),
            out@.len() == i + j,
            sorted_by_address(out@),
            forall|m: int| 0 <= m < out@.len() && i < a@.len() ==> key_of(#[trigger] out@[m])
                <= key_of(a@[i as int]),
            forall|m: int| 0 <= m < out@.len() && j < b@.len() ==> key_of(#[trigger] out@[m])
                <= key_of(b@[j as int]),
            forall|m: int| 0 <= m < j && i < a@.len() ==> key_of(#[trigger] b@[m]) < key_of(
                a@[i as int],
            ),
            forall|key: u64| #[trigger]
                at_address(out@, key) == at_address(a@.take(i as int), key) + at_address(
                    b@.take(j as int),
                    key,
                ),
        decreases a@.len() - i + b@.len() - j,
    {
        let ghost before = out@;
        let from_first = i < a.len() && (j >= b.len() || location_key(
            a[i].entry.ltype,
            a[i].entry.offset,
        ) <= location_key(b[j].entry.ltype, b[j].entry.offset));
        if from_first {
            let x = a[i];
            out.push(x);
            proof {
                assert(a@.take(i + 1).drop_last() =~= a@.take(i as int));
                assert(a@.take(i + 1).last() == x);
                assert(out@.drop_last() =~= before);
                assert forall|m: int| 0 <= m < b@.take(j as int).len() implies key_of(
                    #[trigger] b@.take(j as int)[m],
                ) < key_of(x) by {
                    assert(b@.take(j as int)[m] == b@[m]);
                }
                lemma_at_address_below(b@.take(j as int), key_of(x));
                assert forall|key: u64| #[trigger]
                    at_address(out@, key) == at_address(a@.take(i + 1), key) + at_address(
                        b@.take(j as int),
                        key,
                    ) by {
                    let left = at_address(a@.take(i as int), key);
                    let right = at_address(b@.take(j as int), key);
                    assert(at_address(before, key) == left + right);
                    if key_of(x) == key {
                        assert(right =~= Seq::empty());
                        assert(at_address(out@, key) =~= left.push((x.entry, x.end_eid)) + right);
                    }
                }
                assert forall|m: int, n: int| 0 <= m <= n < out@.len() implies key_of(
                    #[trigger] out@[m],
                ) <= key_of(#[trigger] out@[n]) by {
                    if n < before.len() {
                        assert(out@[m] == before[m] && out@[n] == before[n]);
                    } else if m < before.len() {
                        assert(out@[m] == before[m]);
                    }
                }
                if i + 1 < a@.len() {
                    assert(key_of(a@[i as int]) <= key_of(a@[i + 1]));
                    assert forall|m: int| 0 <= m < out@.len() implies key_of(#[trigger] out@[m])
                        <= key_of(a@[i + 1]) by {
                        if m < before.len() {
                            assert(out@[m] == before[m]);
                        }
                    }
                }
                assert forall|m: int| 0 <= m < out@.len() && j < b@.len() implies key_of(
                    #[trigger] out@[m],
                ) <= key_of(b@[j as int]) by {
                    if m < before.len() {
                        assert(out@[m] == before[m]);
                    }
                }
            }
            i += 1;
        } else {
            let x = b[j];
            out.push(x);
            proof {
                assert(b@.take(j + 1).drop_last() =~= b@.take(j as int));
                assert(b@.take(j + 1).last() == x);
                assert(out@.drop_last() =~= before);
                assert forall|key: u64| #[trigger]
                    at_address(out@, key) == at_address(a@.take(i as int), key) + at_address(
                        b@.take(j + 1),
                        key,
                    ) by {
                    let left = at_address(a@.take(i as int), key);
                    let right = at_address(b@.take(j as int), key);
                    assert(at_address(before, key) == left + right);
                    if key_of(x) == key {
                        assert(at_address(out@, key) =~= left + right.push((x.entry, x.end_eid)));
                    }
                }
                assert forall|m: int, n: int| 0 <= m <= n < out@.len() implies key_of(
                    #[trigger] out@[m],
                ) <= key_of(#[trigger] out@[n]) by {
                    if n < before.len() {
                        assert(out@[m] == before[m] && out@[n] == before[n]);
                    } else if m < before.len() {
                        assert(out@[m] == before[m]);
                    }
                }
                if j + 1 < b@.len() {
                    assert(key_of(b@[j as int]) <= key_of(b@[j + 1]));
                    assert forall|m: int| 0 <= m < out@.len() implies key_of(#[trigger] out@[m])
                        <= key_of(b@[j + 1]) by {
                        if m < before.len() {
                            assert(out@[m] == before[m]);
                        }
                    }
                }
                assert forall|m: int| 0 <= m < out@.len() && i < a@.len() implies key_of(
                    #[trigger] out@[m],
                ) <= key_of(a@[i as int]) by {
                    if m < before.len() {
                        assert(out@[m] == before[m]);
                    }
                }
            }
            j += 1;
        }
    }
    proof {
        assert(a@.take(i as int) =~= a@);
        assert(b@.take(j as int) =~= b@);
    }
    out
}

/// Groups the entries by address and keeps, for every address, the order
/// the entries came in.
fn sort_by_address(entries: Vec<MemoryWritingEntry>) -> (r: Vec<MemoryWritingEntry>)
    ensures
        sorted_by_address(r@),
        r@.len() == entries@.len(),
        forall|key: u64| #[trigger] at_address(r@, key) == at_address(entries@, key),
    decreases entries@.len(),
{
    let n = entries.len();
    if n <= 1 {
        return entries;
    }
    let mut left = entries;
    let right = left.split_off(n / 2);
    proof {
        assert(entries@ =~= left@ + right@);
        assert forall|key: u64| #[trigger]
            at_address(entries@, key) == at_address(left@, key) + at_address(right@, key) by {
            lemma_at_address_add(left@, right@, key);
        }
    }
    let left = sort_by_address(left);
    let right = sort_by_address(right);
    merge(&left, &right)
}

impl MemoryWritingTable {
    /// The table grouped by address, the addresses in growing order of their
    /// keys. The values of every address stay in the order in which they
    /// were written, so that within an address the table stays in the order
    /// of the steps; every entry gets its new position as its index.
    pub fn sorted(self) -> (r: Self)
        ensures
            r.0@.len() == self.0@.len(),
            sorted_by_address(r.0@),
            forall|key: u64| #[trigger] at_address(r.0@, key) == at_address(self.0@, key),
            forall|i: int| 0 <= i < r.0@.len() ==> (#[trigger] r.0@[i]).index == i,
    {
        let sorted = sort_by_address(self.0);
        let mut out: Vec<MemoryWritingEntry> = Vec::new();
        let mut i: usize = 0;
        proof {
            assert(sorted@.take(0) =~= out@);
        }
        while i < sorted.len()
            invariant
                i <= sorted@.len(),
                out@.len() == i,
                forall|m: int| 0 <= m < i ==> (#[trigger] out@[m]).index == m,
                forall|m: int|
                    0 <= m < i ==> (#[trigger] out@[m]).entry == sorted@[m].entry && out@[m].end_eid
                        == sorted@[m].end_eid,
            decreases sorted@.len() - i,
        {
            let entry = sorted[i];
            out.push(MemoryWritingEntry { index: i, entry: entry.entry, end_eid: entry.end_eid });
            i += 1;
        }
        proof {
            lemma_same_values(out@, sorted@);
        }
        MemoryWritingTable(out)
    }
}

/// Tables that agree in all but the indices of their entries are grouped
/// alike and hold the same values of every address.
proof fn lemma_same_values(a: Seq<MemoryWritingEntry>, b: Seq<MemoryWritingEntry>)
    requires
        a.len() == b.len(),
        forall|m: int|
            0 <= m < a.len() ==> (#[trigger] a[m]).entry == b[m].entry && a[m].end_eid
                == b[m].end_eid,
    ensures
        sorted_by_address(b) ==> sorted_by_address(a),
        forall|key: u64| #[trigger] at_address(a, key) == at_address(b, key),
    decreases a.len(),
{
    if sorted_by_address(b) {
        assert forall|i: int, j: int| 0 <= i <= j < a.len() implies key_of(#[trigger] a[i])
            <= key_of(#[trigger] a[j]) by {
            assert(key_of(a[i]) == key_of(b[i]));
            assert(key_of(a[j]) == key_of(b[j]));
        }
    }
    if a.len() > 0 {
        assert forall|m: int| 0 <= m < a.drop_last().len() implies (#[trigger] a.drop_last()[m]).entry
            == b.drop_last()[m].entry && a.drop_last()[m].end_eid == b.drop_last()[m].end_eid by {
            assert(a.drop_last()[m] == a[m]);
            assert(b.drop_last()[m] == b[m]);
        }
        lemma_same_values(a.drop_last(), b.drop_last());
        assert(a.last().entry == b.last().entry && a.last().end_eid == b.last().end_eid);
        assert forall|key: u64| #[trigger] at_address(a, key) == at_address(b, key) by {
            assert(at_address(a.drop_last(), key) == at_address(b.drop_last(), key));
        }
    } else {
        assert forall|key: u64| #[trigger] at_address(a, key) == at_address(b, key) by {}
    }
}

/// The entries of the initial memory table as the memory table lists them.
pub open spec fn init_ops(imtable: Seq<InitMemoryTableEntry>) -> Seq<MemoryTableEntry> {
    Seq::new(imtable.len(), |i: int| imtable[i].spec_as_init())
}

/// All accesses of a slice: the initial values first, then the accesses of
/// the steps.
pub open spec fn full_ops(imtable: Seq<InitMemoryTableEntry>, events: Seq<EventTableEntry>) -> Seq<
    MemoryTableEntry,
> {
    init_ops(imtable) + all_memory_events(events)
}

/// The position of the first access of step `k` among all accesses.
pub open spec fn step_offset(
    imtable: Seq<InitMemoryTableEntry>,
    events: Seq<EventTableEntry>,
    k: int,
) -> int {
    (imtable.len() + all_memory_events(events.take(k)).len()) as int
}

/// The accesses of step `k`, each with its span.
pub open spec fn spans_of_step(
    imtable: Seq<InitMemoryTableEntry>,
    events: Seq<EventTableEntry>,
    maximal_eid: u32,
    k: int,
) -> Seq<MemoryRWEntry> {
    Seq::new(
        memory_events(events[k]).len(),
        |j: int| span_at(full_ops(imtable, events), maximal_eid, step_offset(imtable, events, k) + j),
    )
}

/// The accesses of step `k` lie one after the other among all accesses,
/// from the offset of the step on.
pub proof fn lemma_step_ops(
    imtable: Seq<InitMemoryTableEntry>,
    events: Seq<EventTableEntry>,
    k: int,
    j: int,
)
    requires
        0 <= k < events.len(),
        0 <= j < memory_events(events[k]).len(),
    ensures
        step_offset(imtable, events, k) + j < full_ops(imtable, events).len(),
        full_ops(imtable, events)[step_offset(imtable, events, k) + j] == memory_events(
            events[k],
        )[j],
        step_offset(imtable, events, k + 1) == step_offset(imtable, events, k) + memory_events(
            events[k],
        ).len(),
{
    lemma_all_memory_events_prefix(events, k + 1);
    assert(events.take(k + 1).drop_last() =~= events.take(k));
    assert(events.take(k + 1).last() == events[k]);
    let all = all_memory_events(events);
    let shorter = all_memory_events(events.take(k));
    let longer = all_memory_events(events.take(k + 1));
    assert(longer == shorter + memory_events(events[k]));
    assert(longer[shorter.len() + j] == memory_events(events[k])[j]);
    assert(all.take(longer.len() as int)[shorter.len() + j] == all[shorter.len() + j]);
    assert(full_ops(imtable, events)[imtable.len() + shorter.len() + j] == all[shorter.len() + j]);
}

/// The accesses of the first `k` steps come first among the accesses of all
/// steps.
pub proof fn lemma_all_memory_events_prefix(events: Seq<EventTableEntry>, k: int)
    requires
        0 <= k <= events.len(),
    ensures
        all_memory_events(events.take(k)).len() <= all_memory_events(events).len(),
        all_memory_events(events.take(k)) == all_memory_events(events).take(
            all_memory_events(events.take(k)).len() as int,
        ),
    decreases events.len() - k,
{
    if k == events.len() {
        assert(events.take(k) =~= events);
        assert(all_memory_events(events).take(all_memory_events(events).len() as int)
            =~= all_memory_events(events));
    } else {
        lemma_all_memory_events_prefix(events, k + 1);
        assert(events.take(k + 1).drop_last() =~= events.take(k));
        let longer = all_memory_events(events.take(k + 1));
        let shorter = all_memory_events(events.take(k));
        assert(longer == shorter + memory_events(events.take(k + 1).last()));
        assert(shorter =~= all_memory_events(events).take(shorter.len() as int));
    }
}

impl EventTableWithMemoryInfo {
    /// Joins the steps of a slice with the spans of their memory accesses.
    /// The initial memory of the slice counts as written at step 0.
    pub fn new(event_table: &EventTable, imtable: &InitMemoryTable, maximal_eid: u32) -> (r: Self)
        requires
            forall|i: int| 0 <= i < event_table@.len() ==> in_range(#[trigger] event_table@[i]),
        ensures
            r.events() == event_table@,
            forall|k: int|
                0 <= k < event_table@.len() ==> (#[trigger] r.0@[k]).memory_rw_entires@
                    == spans_of_step(imtable@, event_table@, maximal_eid, k),
    {
        let events = event_table.entries();
        let init = imtable.entries();
        let n = events.len();
        let mut ops: Vec<MemoryTableEntry> = Vec::new();
        let mut i: usize = 0;
        while i < init.len()
            invariant
                i <= init.len(),
                ops@ == init_ops(init@.take(i as int)),
            decreases init.len() - i,
        {
            ops.push(init[i].as_init());
            i += 1;
            proof {
                assert(ops@ =~= init_ops(init@.take(i as int)));
            }
        }
        proof {
            assert(init@.take(i as int) =~= init@);
        }
        let mut offsets: Vec<usize> = Vec::new();
        let mut k: usize = 0;
        while k < n
            invariant
                k <= n,
                n == events@.len(),
                events@ == event_table@,
                init@ == imtable@,
                forall|i: int| 0 <= i < events@.len() ==> in_range(#[trigger] events@[i]),
                ops@ == full_ops(init@, events@.take(k as int)),
                offsets@.len() == k,
                forall|m: int|
                    0 <= m < k ==> #[trigger] offsets@[m] == step_offset(init@, events@, m),
            decreases n - k,
        {
            let mut step_ops = memory_event_of_step(&events[k]);
            proof {
                assert(events@.take(k + 1).drop_last() =~= events@.take(k as int));
                assert(events@.take(k + 1).last() == events@[k as int]);
                assert(full_ops(init@, events@.take(k + 1)) =~= full_ops(
                    init@,
                    events@.take(k as int),
                ) + memory_events(events@[k as int]));
            }
            offsets.push(ops.len());
            ops.append(&mut step_ops);
            k += 1;
        }
        proof {
            assert(events@.take(n as int) =~= events@);
        }
        let all = memory_spans(&ops, maximal_eid);
        let mut out: Vec<EventTableEntryWithMemoryInfo> = Vec::new();
        let mut k: usize = 0;
        while k < n
            invariant
                k <= n,
                n == events@.len(),
                events@ == event_table@,
                init@ == imtable@,
                forall|i: int| 0 <= i < events@.len() ==> in_range(#[trigger] events@[i]),
                ops@ == full_ops(init@, events@),
                all@ == spans(ops@, maximal_eid),
                offsets@.len() == n,
                forall|m: int|
                    0 <= m < n ==> #[trigger] offsets@[m] == step_offset(init@, events@, m),
                out@.len() == k,
                forall|m: int| 0 <= m < k ==> (#[trigger] out@[m]).eentry == events@[m],
                forall|m: int|
                    0 <= m < k ==> (#[trigger] out@[m]).memory_rw_entires@ == spans_of_step(
                        init@,
                        events@,
                        maximal_eid,
                        m,
                    ),
            decreases n - k,
        {
            let entry = events[k];
            let start = offsets[k];
            let ghost len = memory_events(entry).len();
            proof {
                if len > 0 {
                    lemma_step_ops(init@, events@, k as int, len - 1);
                }
            }
            let end = if k + 1 < n {
                proof {
                    if len > 0 {
                        lemma_step_ops(init@, events@, k as int, 0);
                    } else {
                        lemma_all_memory_events_prefix(events@, k + 1);
                        assert(events@.take(k + 1).drop_last() =~= events@.take(k as int));
                    }
                }
                offsets[k + 1]
            } else {
                proof {
                    assert(events@.take(k + 1) =~= events@);
                    assert(events@.take(k + 1).drop_last() =~= events@.take(k as int));
                }
                ops.len()
            };
            let mut rw: Vec<MemoryRWEntry> = Vec::new();
            let mut j = start;
            while j < end
                invariant
                    start <= j <= end <= all@.len(),
                    end - start == len,
                    start == step_offset(init@, events@, k as int),
                    all@ == spans(ops@, maximal_eid),
                    ops@ == full_ops(init@, events@),
                    rw@ == Seq::new(
                        (j - start) as nat,
                        |m: int| span_at(full_ops(init@, events@), maximal_eid, start + m),
                    ),
                decreases end - j,
            {
                rw.push(all[j]);
                j += 1;
                proof {
                    assert(rw@ =~= Seq::new(
                        (j - start) as nat,
                        |m: int| span_at(full_ops(init@, events@), maximal_eid, start + m),
                    ));
                }
            }
            proof {
                assert(rw@ =~= spans_of_step(init@, events@, maximal_eid, k as int));
            }
            out.push(EventTableEntryWithMemoryInfo { eentry: entry, memory_rw_entires: rw });
            k += 1;
        }
        let r = EventTableWithMemoryInfo(out);
        proof {
            assert(r.events() =~= event_table@);
        }
        r
    }
}

} // verus!
