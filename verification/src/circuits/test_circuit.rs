//! The circuit of one slice, put together: every table is handed what it is
//! built from.

use vstd::prelude::*;
use crate::circuits::etable::assign::check_counters_fit;
use crate::circuits::etable::assign::counters_fit;
use crate::circuits::etable::assign::is_assignment;
use crate::circuits::etable::assign::CircuitOverflowError;
use crate::circuits::etable::assign::EventTableAssignment;
use crate::circuits::etable::assign::EventTableChip;
use crate::circuits::etable::EVENT_TABLE_ENTRY_ROWS;
use crate::circuits::utils::table_entry::at_address;
use crate::circuits::utils::table_entry::full_ops;
use crate::circuits::utils::table_entry::init_ops;
use crate::circuits::utils::table_entry::sorted_by_address;
use crate::circuits::utils::table_entry::spans;
use crate::circuits::utils::table_entry::writing_entries;
use crate::circuits::utils::table_entry::EventTableWithMemoryInfo;
use crate::circuits::utils::table_entry::MemoryWritingEntry;
use crate::circuits::utils::table_entry::MemoryWritingTable;
use crate::circuits::TestCircuit;
use crate::runtime::check_all_in_range;
use crate::runtime::in_range;
use crate::runtime::memory_table_of;
use crate::specs::etable::check_end_fits;
use crate::specs::etable::end_fits;
use crate::specs::etable::EventTableEntry;
use crate::specs::imtable::InitMemoryTable;
use crate::specs::jtable::JumpTableEntry;
use crate::specs::jtable::StaticFrameEntry;
use crate::specs::mtable::MemoryTableEntry;
use crate::specs::step::StepInfo;

verus! {

/// What the tables of the circuit of one slice are built from.
#[derive(Debug, PartialEq, Eq)]
pub struct Synthesis {
    /// The steps of external host calls, for the table of such calls.
    pub external_host_calls: Vec<EventTableEntry>,
    /// The values written and set initially, for the memory table.
    pub memory_writing_table: MemoryWritingTable,
    /// The cells of the event table.
    pub etable: EventTableAssignment,
    /// The static call edges and the calls of the slice, for the jump
    /// table.
    pub static_jtable: Vec<StaticFrameEntry>,
    pub jtable: Vec<JumpTableEntry>,
}

/// The steps of external host calls among the first `i` steps.
pub open spec fn external_host_calls(events: Seq<EventTableEntry>, i: int) -> Seq<EventTableEntry>
    decreases i,
{
    if i <= 0 {
        Seq::empty()
    } else {
        let before = external_host_calls(events, i - 1);
        if events[i - 1].step_info is ExternalHostCall {
            before.push(events[i - 1])
        } else {
            before
        }
    }
}

/// Whether `table` is the memory writing table of the values `written`: it
/// holds them grouped by address, the values of every address in the order
/// in which they were written, and every entry knows its position.
pub open spec fn is_memory_writing_table(
    table: Seq<MemoryWritingEntry>,
    written: Seq<MemoryWritingEntry>,
) -> bool {
    &&& table.len() == written.len()
    &&& sorted_by_address(table)
    &&& forall|key: u64| #[trigger] at_address(table, key) == at_address(written, key)
    &&& forall|i: int| 0 <= i < table.len() ==> (#[trigger] table[i]).index == i
}

/// The steps of external host calls, in their order.
pub fn filter_external_host_call_table(events: &Vec<EventTableEntry>) -> (r: Vec<EventTableEntry>)
    ensures
        r@ == external_host_calls(events@, events@.len() as int),
{
    let mut external: Vec<EventTableEntry> = Vec::new();
    let mut i: usize = 0;
    while i < events.len()
        invariant
            i <= events.len(),
            external@ == external_host_calls(events@, i as int),
        decreases events.len() - i,
    {
        match events[i].step_info {
            StepInfo::ExternalHostCall { .. } => {
                external.push(events[i]);
            },
            _ => {},
        }
        i += 1;
    }
    external
}

/// All accesses of a slice: its initial memory as initial values, then the
/// accesses of its steps.
pub fn accesses_of_slice(imtable: &InitMemoryTable, events: &Vec<EventTableEntry>) -> (r: Vec<
    MemoryTableEntry,
>)
    requires
        forall|i: int| 0 <= i < events@.len() ==> in_range(#[trigger] events@[i]),
    ensures
        r@ == full_ops(imtable@, events@),
{
    let init = imtable.entries();
    let mut ops: Vec<MemoryTableEntry> = Vec::new();
    let mut i: usize = 0;
    while i < init.len()
        invariant
            i <= init.len(),
            ops@ == init_ops(init@.take(i as int)),
        decreases init.len() - i,
    {
        ops.push(init[i].as_init());
        i += 1;
        proof {
            assert(ops@ =~= init_ops(init@.take(i as int)));
        }
    }
    proof {
        assert(init@.take(i as int) =~= init@);
    }
    let derived = memory_table_of(events);
    let mut step_ops = derived.entries().clone();
    ops.append(&mut step_ops);
    ops
}

impl TestCircuit {
    /// Whether the slice of the circuit can be laid out: the memory
    /// accesses of its steps can be derived, its counters stay within 32
    /// bits, and so does the state after its last step.
    pub open spec fn synthesizable(&self) -> bool {
        &&& forall|i: int|
            0 <= i < self.tables.execution_tables.etable@.len() ==> in_range(
                #[trigger] self.tables.execution_tables.etable@[i],
            )
        &&& counters_fit(
            self.tables.compilation_tables.initialization_state,
            self.tables.execution_tables.etable@,
        )
        &&& end_fits(self.tables.execution_tables.etable@)
    }

    /// Decides `synthesizable`.
    pub fn check_synthesizable(&self) -> (r: bool)
        ensures
            r == self.synthesizable(),
    {
        let events = self.tables.execution_tables.etable.entries();
        check_all_in_range(events) && check_counters_fit(
            &self.tables.compilation_tables.initialization_state,
            events,
        ) && check_end_fits(events)
    }

    /// Puts together what every table of the circuit is built from. Fails
    /// where the slice has more steps than the event table has room for.
    pub fn synthesize(&self, chip: &EventTableChip, maximal_eid: u32, has_witness: bool) -> (r: Result<
        Synthesis,
        CircuitOverflowError,
    >)
        requires
            self.synthesizable(),
        ensures
            r is Err <==> self.tables.execution_tables.etable@.len() * EVENT_TABLE_ENTRY_ROWS
                > chip.max_available_rows,
            r matches Ok(s) ==> {
                let events = self.tables.execution_tables.etable@;
                let imtable = self.tables.compilation_tables.imtable@;
                &&& s.external_host_calls@ == external_host_calls(events, events.len() as int)
                &&& is_memory_writing_table(
                    s.memory_writing_table.0@,
                    writing_entries(
                        spans(full_ops(imtable, events), maximal_eid),
                        full_ops(imtable, events).len() as int,
                    ),
                )
                &&& is_assignment(
                    *chip,
                    events,
                    self.tables.compilation_tables.configure_table,
                    self.tables.compilation_tables.initialization_state,
                    has_witness,
                    s.etable,
                )
                &&& s.static_jtable@ == self.tables.compilation_tables.static_jtable@
                &&& s.jtable@ == self.tables.execution_tables.jtable@
            },
    {
        let events = self.tables.execution_tables.etable.entries();
        let external = filter_external_host_call_table(events);
        let ops = accesses_of_slice(&self.tables.compilation_tables.imtable, events);
        let memory_writing_table = MemoryWritingTable::new(&ops, maximal_eid).sorted();
        let etable = EventTableWithMemoryInfo::new(
            &self.tables.execution_tables.etable,
            &self.tables.compilation_tables.imtable,
            maximal_eid,
        );
        let assignment = chip.assign(
            &etable,
            &self.tables.compilation_tables.configure_table,
            &self.tables.compilation_tables.initialization_state,
            has_witness,
        );
        match assignment {
            Err(e) => Err(e),
            Ok(assigned) => Ok(
                Synthesis {
                    external_host_calls: external,
                    memory_writing_table,
                    etable: assigned,
                    static_jtable: self.tables.compilation_tables.static_jtable.clone(),
                    jtable: self.tables.execution_tables.jtable.entries().clone(),
                },
            ),
        }
    }
}

} // verus!
