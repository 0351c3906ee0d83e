//! The event table: the ordered log of executed steps.

use vstd::prelude::*;
use crate::specs::host_function::HostPlugin;
use crate::specs::itable::InstructionTableEntry;
use crate::specs::itable::Opcode;
use crate::specs::step::StepInfo;

verus! {

/// One executed step: the instruction, the machine state it started from and
/// what it observed.
#[derive(Clone, Copy, Debug, PartialEq, Eq, Structural, Hash)]
pub struct EventTableEntry {
    pub eid: u32,
    pub sp: u32,
    pub allocated_memory_pages: u32,
    pub last_jump_eid: u32,
    pub inst: InstructionTableEntry,
    pub step_info: StepInfo,
}

impl EventTableEntry {
    /// Whether the step is an internal host call served by `foreign`.
    pub open spec fn spec_is_foreign(self, foreign: HostPlugin) -> bool {
        match self.step_info {
            StepInfo::CallHost { plugin, .. } => plugin == foreign,
            _ => false,
        }
    }

    #[verifier::when_used_as_spec(spec_is_foreign)]
    pub fn is_foreign(self, foreign: HostPlugin) -> (r: bool)
        ensures
            r == self.spec_is_foreign(foreign),
    {
        match self.step_info {
            StepInfo::CallHost { plugin, .. } => plugin == foreign,
            _ => false,
        }
    }
}

/// How many stack slots the instruction of a step frees when it returns; 0
/// for any other instruction.
pub open spec fn return_drop(entry: EventTableEntry) -> u32 {
    match entry.inst.opcode {
        Opcode::Return { drop, .. } => drop,
        _ => 0,
    }
}

/// Whether the state that follows the last of `events` can be written down:
/// the execution id after the last is one, and the stack pointer that the
/// last step leaves is one.
pub open spec fn end_fits(events: Seq<EventTableEntry>) -> bool {
    events.len() > 0 ==> events.last().eid < u32::MAX && events.last().sp + return_drop(
        events.last(),
    ) <= u32::MAX
}

/// Decides `end_fits`.
pub fn check_end_fits(events: &Vec<EventTableEntry>) -> (r: bool)
    ensures
        r == end_fits(events@),
{
    let n = events.len();
    if n == 0 {
        return true;
    }
    let last = events[n - 1];
    let drop = match last.inst.opcode {
        Opcode::Return { drop, .. } => drop,
        _ => 0,
    };
    last.eid < u32::MAX && drop <= u32::MAX - last.sp
}

/// The countdown of memory-writing operations, row by row: the value of the
/// first row is handed out first.
pub struct RestMops {
    rest_mops: Vec<u64>,
}

impl View for RestMops {
    type V = Seq<u64>;

    /// The values still to hand out, the next one first.
    closed spec fn view(&self) -> Seq<u64> {
        self.rest_mops@.reverse()
    }
}

impl RestMops {
    /// A countdown that hands out `values` from the first to the last.
    pub fn new(values: Vec<u64>) -> (r: Self)
        ensures
            r@ == values@,
    {
        let mut rest_mops = values;
        reverse_in_place(&mut rest_mops);
        proof {
            assert(rest_mops@.reverse() =~= values@);
        }
        RestMops { rest_mops }
    }

    /// Hands out the next value, or `None` when all have been handed out.
    pub fn next(&mut self) -> (r: Option<u64>)
        ensures
            old(self)@.len() == 0 ==> r is None && final(self)@ == old(self)@,
            old(self)@.len() > 0 ==> r == Some(old(self)@[0]) && final(self)@ == old(self)@.skip(1),
    {
        let r = self.rest_mops.pop();
        proof {
            if old(self).rest_mops@.len() > 0 {
                assert(self.rest_mops@.reverse() =~= old(self).rest_mops@.reverse().skip(1));
            }
        }
        r
    }
}

/// The countdown of jump operations, row by row: the value of the first row
/// is handed out first.
pub struct RestJops {
    rest_jops: Vec<u64>,
}

impl View for RestJops {
    type V = Seq<u64>;

    /// The values still to hand out, the next one first.
    closed spec fn view(&self) -> Seq<u64> {
        self.rest_jops@.reverse()
    }
}

impl RestJops {
    /// A countdown that hands out `values` from the first to the last.
    pub fn new(values: Vec<u64>) -> (r: Self)
        ensures
            r@ == values@,
    {
        let mut rest_jops = values;
        reverse_in_place(&mut rest_jops);
        proof {
            assert(rest_jops@.reverse() =~= values@);
        }
        RestJops { rest_jops }
    }

    /// Hands out the next value, or `None` when all have been handed out.
    pub fn next(&mut self) -> (r: Option<u64>)
        ensures
            old(self)@.len() == 0 ==> r is None && final(self)@ == old(self)@,
            old(self)@.len() > 0 ==> r == Some(old(self)@[0]) && final(self)@ == old(self)@.skip(1),
    {
        let r = self.rest_jops.pop();
        proof {
            if old(self).rest_jops@.len() > 0 {
                assert(self.rest_jops@.reverse() =~= old(self).rest_jops@.reverse().skip(1));
            }
        }
        r
    }
}

fn reverse_in_place(values: &mut Vec<u64>)
    ensures
        final(values)@ == old(values)@.reverse(),
{
    let n = values.len();
    let mut i: usize = 0;
    while i < n / 2
        invariant
            n == values.len(),
            n == old(values).len(),
            i <= n / 2,
            forall|j: int| 0 <= j < i ==> values@[j] == old(values)@[n - 1 - j],
            forall|j: int| 0 <= j < i ==> values@[n - 1 - j] == old(values)@[j],
            forall|j: int| i <= j < n - i ==> values@[j] == old(values)@[j],
        decreases n / 2 - i,
    {
        let a = values[i];
        let b = values[n - 1 - i];
        values.set(i, b);
        values.set(n - 1 - i, a);
        i += 1;
    }
    proof {
        assert(values@ =~= old(values)@.reverse());
    }
}

/// The event table of a run or of a slice of it.
#[derive(Debug, PartialEq, Eq)]
pub struct EventTable {
    entries: Vec<EventTableEntry>,
    pub latest_eid: u32,
}

impl View for EventTable {
    type V = Seq<EventTableEntry>;

    closed spec fn view(&self) -> Seq<EventTableEntry> {
        self.entries@
    }
}

impl Default for EventTable {
    fn default() -> (r: Self)
        ensures
            r@ == Seq::<EventTableEntry>::empty(),
            r.spec_get_latest_eid() == 0,
    {
        EventTable { entries: Vec::new(), latest_eid: 0 }
    }
}

impl Clone for EventTable {
    fn clone(&self) -> (r: Self)
        ensures
            r@ == self@,
            r.spec_get_latest_eid() == self.spec_get_latest_eid(),
    {
        EventTable { entries: self.entries.clone(), latest_eid: self.latest_eid }
    }
}

impl EventTable {
    /// The execution id that was handed out last; 0 before the first.
    pub closed spec fn spec_get_latest_eid(&self) -> u32 {
        self.latest_eid
    }

    /// The table of `entries`, with no execution id handed out yet.
    pub fn new(entries: Vec<EventTableEntry>) -> (r: Self)
        ensures
            r@ == entries@,
            r.spec_get_latest_eid() == 0,
    {
        Self { entries, latest_eid: 0 }
    }

    pub fn entries(&self) -> (r: &Vec<EventTableEntry>)
        ensures
            r@ == self@,
    {
        &self.entries
    }

    /// Appends the step that was just executed and hands out its execution
    /// id: the one after the latest.
    pub fn push(
        &mut self,
        sp: u32,
        allocated_memory_pages: u32,
        last_jump_eid: u32,
        inst: InstructionTableEntry,
        step_info: StepInfo,
    ) -> (eid: u32)
        requires
            old(self).spec_get_latest_eid() < u32::MAX,
        ensures
            eid == old(self).spec_get_latest_eid() + 1,
            final(self).spec_get_latest_eid() == eid,
            final(self)@ == old(self)@.push(
                EventTableEntry { eid, sp, allocated_memory_pages, last_jump_eid, inst, step_info },
            ),
    {
        self.latest_eid = self.latest_eid + 1;
        let eid = self.latest_eid;
        self.entries.push(
            EventTableEntry { eid, sp, allocated_memory_pages, last_jump_eid, inst, step_info },
        );
        eid
    }

    /// The entries, open to change; the latest execution id stays as it is.
    pub fn entries_mut(&mut self) -> (r: &mut Vec<EventTableEntry>)
        ensures
            r@ == old(self)@,
            final(self)@ == final(r)@,
            final(self).spec_get_latest_eid() == old(self).spec_get_latest_eid(),
    {
        &mut self.entries
    }

    /// The host calls that `foreign` served, in the order of the table.
    pub fn filter_foreign_entries(&self, foreign: HostPlugin) -> (r: Vec<EventTableEntry>)
        ensures
            r@ == self@.filter(|entry: EventTableEntry| entry.spec_is_foreign(foreign)),
    {
        let ghost pred = |entry: EventTableEntry| entry.spec_is_foreign(foreign);
        let mut out: Vec<EventTableEntry> = Vec::new();
        let mut i: usize = 0;
        proof {
            reveal(Seq::filter);
            assert(self.entries@.take(0) =~= Seq::<EventTableEntry>::empty());
        }
        while i < self.entries.len()
            invariant
                i <= self.entries.len(),
                pred == |entry: EventTableEntry| entry.spec_is_foreign(foreign),
                out@ == self.entries@.take(i as int).filter(pred),
            decreases self.entries.len() - i,
        {
            let entry = self.entries[i];
            proof {
                reveal(Seq::filter);
                assert(self.entries@.take(i + 1).drop_last() =~= self.entries@.take(i as int));
                assert(self.entries@.take(i + 1).last() == entry);
            }
            if entry.is_foreign(foreign) {
                out.push(entry);
            }
            i += 1;
        }
        proof {
            assert(self.entries@.take(i as int) =~= self.entries@);
        }
        out
    }

    #[verifier::when_used_as_spec(spec_get_latest_eid)]
    pub fn get_latest_eid(&self) -> (r: u32)
        ensures
            r == self.spec_get_latest_eid(),
    {
        self.latest_eid
    }
}

} // verus!
