//! The cells of the event table for one slice: which value goes where.

use vstd::prelude::*;
use crate::circuits::etable::is_context_input_op;
use crate::circuits::etable::is_context_output_op;
use crate::circuits::etable::is_external_host_call;
use crate::circuits::etable::is_host_public_input;
use crate::circuits::etable::jops;
use crate::circuits::etable::lemma_total_bound;
use crate::circuits::etable::lemma_total_from_step;
use crate::circuits::etable::lemma_total_split;
use crate::circuits::etable::lemma_weight_bound;
use crate::circuits::etable::memory_writing_ops;
use crate::circuits::etable::total;
use crate::circuits::etable::total_before;
use crate::circuits::etable::total_from;
use crate::circuits::etable::weight;
use crate::circuits::etable::Counter;
use crate::circuits::etable::EVENT_TABLE_ENTRY_ROWS;
use crate::circuits::utils::step_status::Status;
use crate::circuits::utils::step_status::StepStatus;
use crate::circuits::utils::table_entry::EventTableWithMemoryInfo;
use crate::specs::configure_table::ConfigureTable;
use crate::specs::etable::end_fits;
use crate::specs::etable::return_drop;
use crate::specs::etable::EventTableEntry;
use crate::specs::itable::Opcode;
use crate::specs::itable::InstructionTableEntry;
use crate::specs::itable::OpcodeClass;
use crate::specs::state::InitializationState;

verus! {

/// The columns that every step fills, whatever its opcode.
#[derive(Clone, Copy, Debug, PartialEq, Eq, Structural, Hash)]
pub enum EventTableColumn {
    Enabled,
    RestMops,
    Jops,
    InputIndex,
    ContextInputIndex,
    ContextOutputIndex,
    ExternalHostCallIndex,
    Sp,
    Mpages,
    MaximalMemoryPages,
    FrameId,
    Eid,
    Fid,
    Iid,
}

/// A cell of the event table: a column and the row of the region.
#[derive(Clone, Copy, Debug, PartialEq, Eq, Structural, Hash)]
pub struct Cell {
    pub column: EventTableColumn,
    pub offset: usize,
}

/// A cell and the value it was given.
#[derive(Clone, Copy, Debug, PartialEq, Eq, Structural, Hash)]
pub struct AssignedCell {
    pub cell: Cell,
    pub value: u64,
}

/// The cells of the event table that other tables are tied to.
#[derive(Clone, Copy, Debug, PartialEq, Eq)]
pub struct EventTablePermutationCells {
    pub rest_mops: Option<Cell>,
    pub pre_initialization_state: InitializationState<Cell>,
    pub rest_jops: Option<Cell>,
}

/// Where the chip marks the start of a step and where the countdowns are
/// tied to zero.
#[derive(Debug, PartialEq, Eq)]
pub struct StepSelectors {
    /// The rows at which a step may start, in growing order.
    pub offsets: Vec<usize>,
    /// The row after the last step the table has room for: the countdown of
    /// memory-writing operations is zero there.
    pub terminate_offset: usize,
    /// Whether the countdown of jump operations is zero there too.
    pub rest_jops_terminates: bool,
}

/// The values of the common cells of one executed step.
#[derive(Clone, Copy, Debug, PartialEq, Eq, Structural, Hash)]
pub struct EventTableRow {
    pub offset: usize,
    /// The class whose selector is switched on.
    pub class: OpcodeClass,
    pub rest_mops: u32,
    pub jops: u32,
    pub input_index: u32,
    pub context_input_index: u32,
    pub context_output_index: u32,
    pub external_host_call_index: u32,
    pub sp: u32,
    pub mpages: u32,
    pub maximal_memory_pages: u32,
    pub frame_id: u32,
    pub eid: u32,
    pub fid: u32,
    pub iid: u32,
    /// The instruction the row looks up in the instruction table.
    pub inst: InstructionTableEntry,
    /// What the constraints of the opcode are given for this step.
    pub step_status: StepStatus,
}

/// The values of the row that follows the last executed step: the state
/// after that step. The row is not enabled.
#[derive(Clone, Copy, Debug, PartialEq, Eq, Structural, Hash)]
pub struct TerminateRow {
    pub offset: usize,
    pub rest_mops: u32,
    pub jops: u32,
    pub input_index: u32,
    pub context_input_index: u32,
    pub context_output_index: u32,
    pub external_host_call_index: u32,
    pub sp: u32,
    pub mpages: u32,
    pub maximal_memory_pages: u32,
    pub frame_id: u32,
    pub eid: u32,
    pub fid: u32,
    pub iid: u32,
}

/// The rows of the executed steps and the row that ends them.
#[derive(Debug, PartialEq, Eq)]
pub struct EventTableRows {
    pub rows: Vec<EventTableRow>,
    pub terminate: Option<TerminateRow>,
}

/// All that the chip assigns for one slice.
#[derive(Debug, PartialEq, Eq)]
pub struct EventTableAssignment {
    pub selectors: StepSelectors,
    pub initialization_state: InitializationState<AssignedCell>,
    pub entries: EventTableRows,
    pub permutation_cells: EventTablePermutationCells,
}

/// A slice's trace is longer than the table has rows for.
#[derive(Clone, Copy, Debug, PartialEq, Eq, Structural, Hash)]
pub struct CircuitOverflowError {
    /// How many steps the slice has.
    pub steps: usize,
    /// How many steps the table has room for.
    pub capability: usize,
}

/// The state after the last step of a table that is not empty: the next
/// execution id, no instruction, the root frame, the memory as the last
/// step found it, and the stack as the last step leaves it, a return having
/// freed what it drops.
pub open spec fn terminate_status(events: Seq<EventTableEntry>) -> Status {
    let last = events.last();
    Status {
        eid: (last.eid + 1) as u32,
        fid: 0,
        iid: 0,
        sp: (last.sp + return_drop(last)) as u32,
        last_jump_eid: 0,
        allocated_memory_pages: last.allocated_memory_pages,
    }
}

/// The state before step `i`; with `i` the number of steps, the state after
/// the last step.
pub open spec fn status_at(events: Seq<EventTableEntry>, i: int) -> Status {
    if 0 <= i < events.len() {
        Status::spec_of(events[i])
    } else {
        terminate_status(events)
    }
}

/// What a counter that starts at `start` holds before step `i`.
pub open spec fn running(start: u32, counter: Counter, events: Seq<EventTableEntry>, i: int) -> int {
    start + total_before(counter, events, i)
}

/// What the count of jump operations holds before step `i`: across slices a
/// running total that grows, within one slice a countdown.
pub open spec fn jops_at(
    start: u32,
    continuation: bool,
    events: Seq<EventTableEntry>,
    i: int,
) -> int {
    if continuation {
        start + total_before(Counter::JumpOps, events, i)
    } else {
        start - total_before(Counter::JumpOps, events, i)
    }
}

/// The row of step `i`.
pub open spec fn row_at(
    events: Seq<EventTableEntry>,
    configure_table: ConfigureTable,
    init: InitializationState<u32>,
    rest_mops: u32,
    jops: u32,
    i: int,
) -> EventTableRow {
    let entry = events[i];
    EventTableRow {
        offset: (i * EVENT_TABLE_ENTRY_ROWS) as usize,
        class: entry.inst.opcode.spec_class(),
        rest_mops: (rest_mops - total_before(Counter::MemoryWritingOps, events, i)) as u32,
        jops: jops_at(jops, init.jops is Some, events, i) as u32,
        input_index: running(init.host_public_inputs, Counter::HostPublicInputs, events, i) as u32,
        context_input_index: running(init.context_in_index, Counter::ContextInputs, events, i) as u32,
        context_output_index: running(
            init.context_out_index,
            Counter::ContextOutputs,
            events,
            i,
        ) as u32,
        external_host_call_index: running(
            init.external_host_call_call_index,
            Counter::ExternalHostCalls,
            events,
            i,
        ) as u32,
        sp: entry.sp,
        mpages: entry.allocated_memory_pages,
        maximal_memory_pages: configure_table.maximal_memory_pages,
        frame_id: entry.last_jump_eid,
        eid: entry.eid,
        fid: entry.inst.fid,
        iid: entry.inst.iid,
        inst: entry.inst,
        step_status: StepStatus {
            current: status_at(events, i),
            next: status_at(events, i + 1),
            current_external_host_call_index: running(
                init.external_host_call_call_index,
                Counter::ExternalHostCalls,
                events,
                i,
            ) as u32,
            configure_table,
            host_public_inputs: running(
                init.host_public_inputs,
                Counter::HostPublicInputs,
                events,
                i,
            ) as u32,
            context_in_index: running(init.context_in_index, Counter::ContextInputs, events, i) as u32,
            context_out_index: running(
                init.context_out_index,
                Counter::ContextOutputs,
                events,
                i,
            ) as u32,
        },
    }
}

/// The row that follows the last step.
pub open spec fn terminate_row(
    events: Seq<EventTableEntry>,
    configure_table: ConfigureTable,
    init: InitializationState<u32>,
    rest_mops: u32,
    jops: u32,
) -> TerminateRow {
    let n = events.len() as int;
    let last = terminate_status(events);
    TerminateRow {
        offset: (n * EVENT_TABLE_ENTRY_ROWS) as usize,
        rest_mops: (rest_mops - total_before(Counter::MemoryWritingOps, events, n)) as u32,
        jops: jops_at(jops, init.jops is Some, events, n) as u32,
        input_index: running(init.host_public_inputs, Counter::HostPublicInputs, events, n) as u32,
        context_input_index: running(init.context_in_index, Counter::ContextInputs, events, n) as u32,
        context_output_index: running(
            init.context_out_index,
            Counter::ContextOutputs,
            events,
            n,
        ) as u32,
        external_host_call_index: running(
            init.external_host_call_call_index,
            Counter::ExternalHostCalls,
            events,
            n,
        ) as u32,
        sp: last.sp,
        mpages: last.allocated_memory_pages,
        maximal_memory_pages: configure_table.maximal_memory_pages,
        frame_id: last.last_jump_eid,
        eid: last.eid,
        fid: last.fid,
        iid: last.iid,
    }
}

/// Whether the running indices stay within 32 bits through all of
/// `events`, where they start from `init`.
pub open spec fn counters_fit(init: InitializationState<u32>, events: Seq<EventTableEntry>) -> bool {
    &&& init.host_public_inputs + total(Counter::HostPublicInputs, events) <= u32::MAX
    &&& init.context_in_index + total(Counter::ContextInputs, events) <= u32::MAX
    &&& init.context_out_index + total(Counter::ContextOutputs, events) <= u32::MAX
    &&& init.external_host_call_call_index + total(Counter::ExternalHostCalls, events) <= u32::MAX
    &&& init.jops matches Some(jops) ==> jops + total(Counter::JumpOps, events) <= u32::MAX
}

/// A counter that fits at the end fits before every step.
pub proof fn lemma_running_fits(start: u32, counter: Counter, events: Seq<EventTableEntry>, i: int)
    requires
        0 <= i <= events.len(),
        start + total(counter, events) <= u32::MAX,
    ensures
        0 <= running(start, counter, events, i) <= u32::MAX,
        i < events.len() ==> running(start, counter, events, i) + weight(counter, events[i])
            <= u32::MAX,
{
    lemma_total_split(counter, events, i);
}

/// Whether `count` more fit a counter that stands at `start`.
fn fits(start: u32, count: u64) -> (r: bool)
    ensures
        r == (start + count <= u32::MAX),
{
    count <= (u32::MAX - start) as u64
}

/// Decides `counters_fit`.
pub fn check_counters_fit(init: &InitializationState<u32>, events: &Vec<EventTableEntry>) -> (r:
    bool)
    ensures
        r == counters_fit(*init, events@),
{
    let n = events.len();
    let mut inputs: u64 = 0;
    let mut context_inputs: u64 = 0;
    let mut context_outputs: u64 = 0;
    let mut external_calls: u64 = 0;
    let mut jump_ops: u64 = 0;
    let mut i: usize = 0;
    while i < n
        invariant
            i <= n,
            n == events@.len(),
            inputs == total_before(Counter::HostPublicInputs, events@, i as int),
            context_inputs == total_before(Counter::ContextInputs, events@, i as int),
            context_outputs == total_before(Counter::ContextOutputs, events@, i as int),
            external_calls == total_before(Counter::ExternalHostCalls, events@, i as int),
            jump_ops == total_before(Counter::JumpOps, events@, i as int),
        decreases n - i,
    {
        let entry = events[i];
        proof {
            lemma_total_bound(Counter::HostPublicInputs, events@, i as int);
            lemma_total_bound(Counter::ContextInputs, events@, i as int);
            lemma_total_bound(Counter::ContextOutputs, events@, i as int);
            lemma_total_bound(Counter::ExternalHostCalls, events@, i as int);
            lemma_total_bound(Counter::JumpOps, events@, i as int);
        }
        if is_host_public_input(&entry) {
            inputs += 1;
        }
        if is_context_input_op(&entry) {
            context_inputs += 1;
        }
        if is_context_output_op(&entry) {
            context_outputs += 1;
        }
        if is_external_host_call(&entry) {
            external_calls += 1;
        }
        jump_ops += crate::circuits::etable::jops(&entry) as u64;
        i += 1;
    }
    proof {
        lemma_total_split(Counter::HostPublicInputs, events@, n as int);
        lemma_total_split(Counter::ContextInputs, events@, n as int);
        lemma_total_split(Counter::ContextOutputs, events@, n as int);
        lemma_total_split(Counter::ExternalHostCalls, events@, n as int);
        lemma_total_split(Counter::JumpOps, events@, n as int);
    }
    let jops_fit = match init.jops {
        Some(jops) => fits(jops, jump_ops),
        None => true,
    };
    fits(init.host_public_inputs, inputs) && fits(init.context_in_index, context_inputs) && fits(
        init.context_out_index,
        context_outputs,
    ) && fits(init.external_host_call_call_index, external_calls) && jops_fit
}

/// The chip that lays out the event table in a region of
/// `max_available_rows` rows.
#[derive(Clone, Copy, Debug, PartialEq, Eq, Structural, Hash)]
pub struct EventTableChip {
    pub max_available_rows: u32,
}

impl EventTableChip {
    pub fn new(max_available_rows: u32) -> (r: Self)
        ensures
            r.max_available_rows == max_available_rows,
    {
        EventTableChip { max_available_rows }
    }

    /// How many steps the table has room for.
    pub open spec fn spec_capability(&self) -> usize {
        (self.max_available_rows as usize / EVENT_TABLE_ENTRY_ROWS) as usize
    }

    #[verifier::when_used_as_spec(spec_capability)]
    pub fn capability(&self) -> (r: usize)
        ensures
            r == self.spec_capability(),
            r * EVENT_TABLE_ENTRY_ROWS <= self.max_available_rows,
    {
        self.max_available_rows as usize / EVENT_TABLE_ENTRY_ROWS
    }

    /// What the first row holds of the two accumulators: the number of
    /// memory-writing operations of the slice, and for jump operations the
    /// running total the slice starts from, or their number in the slice
    /// where the execution is not split.
    pub fn compute_rest_mops_and_jops(
        &self,
        event_table: &EventTableWithMemoryInfo,
        initialization_state: &InitializationState<u32>,
    ) -> (r: (u32, u32))
        requires
            total(Counter::MemoryWritingOps, event_table.events()) <= u32::MAX,
            initialization_state.jops is None ==> total(Counter::JumpOps, event_table.events())
                <= u32::MAX,
        ensures
            r.0 == total(Counter::MemoryWritingOps, event_table.events()),
            r.1 == match initialization_state.jops {
                Some(jops) => jops as nat,
                None => total(Counter::JumpOps, event_table.events()),
            },
    {
        let ghost events = event_table.events();
        let n = event_table.0.len();
        let count_jops = initialization_state.jops.is_none();
        let mut rest_mops_sum: u32 = 0;
        let mut rest_jops_sum: u32 = 0;
        let mut i: usize = n;
        while i > 0
            invariant
                n == event_table.0@.len(),
                events == event_table.events(),
                total(Counter::MemoryWritingOps, events) <= u32::MAX,
                count_jops ==> total(Counter::JumpOps, events) <= u32::MAX,
                i <= n,
                rest_mops_sum == total_from(Counter::MemoryWritingOps, events, i as int),
                count_jops ==> rest_jops_sum == total_from(Counter::JumpOps, events, i as int),
            decreases i,
        {
            i -= 1;
            let entry = &event_table.0[i].eentry;
            proof {
                assert(events[i as int] == *entry);
                lemma_total_from_step(Counter::MemoryWritingOps, events, i as int);
                lemma_total_from_step(Counter::JumpOps, events, i as int);
            }
            rest_mops_sum = rest_mops_sum + memory_writing_ops(entry);
            if count_jops {
                rest_jops_sum = rest_jops_sum + jops(entry);
            }
        }
        match initialization_state.jops {
            Some(jops) => (rest_mops_sum, jops),
            None => (rest_mops_sum, rest_jops_sum),
        }
    }

    /// Marks every row at which a step may start and ties the countdowns to
    /// zero after the last of them. Within one slice both countdowns end at
    /// zero; across slices the count of jump operations is a running total
    /// and is left open.
    pub fn init(&self, continuation: bool) -> (r: StepSelectors)
        ensures
            r.offsets@ == Seq::new(
                self.spec_capability() as nat,
                |i: int| (i * EVENT_TABLE_ENTRY_ROWS) as usize,
            ),
            r.terminate_offset == self.spec_capability() * EVENT_TABLE_ENTRY_ROWS,
            r.rest_jops_terminates == !continuation,
    {
        let capability = self.capability();
        let mut offsets: Vec<usize> = Vec::new();
        let mut offset: usize = 0;
        let mut i: usize = 0;
        while i < capability
            invariant
                i <= capability,
                capability * EVENT_TABLE_ENTRY_ROWS <= self.max_available_rows,
                offset == i * EVENT_TABLE_ENTRY_ROWS,
                offsets@ == Seq::new(i as nat, |j: int| (j * EVENT_TABLE_ENTRY_ROWS) as usize),
            decreases capability - i,
        {
            offsets.push(offset);
            offset = offset + EVENT_TABLE_ENTRY_ROWS;
            i += 1;
            proof {
                assert(offsets@ =~= Seq::new(
                    i as nat,
                    |j: int| (j * EVENT_TABLE_ENTRY_ROWS) as usize,
                ));
            }
        }
        StepSelectors { offsets, terminate_offset: offset, rest_jops_terminates: !continuation }
    }

    /// The cells of the two accumulators in the first row. They are tied to
    /// the memory table and the jump table; their values are set with the
    /// first step.
    pub fn assign_rest_ops_first_step(&self) -> (r: (AssignedCell, AssignedCell))
        ensures
            r.0 == (AssignedCell {
                cell: Cell { column: EventTableColumn::RestMops, offset: 0 },
                value: 0,
            }),
            r.1 == (AssignedCell { cell: Cell { column: EventTableColumn::Jops, offset: 0 }, value: 0 }),
    {
        (
            AssignedCell { cell: Cell { column: EventTableColumn::RestMops, offset: 0 }, value: 0 },
            AssignedCell { cell: Cell { column: EventTableColumn::Jops, offset: 0 }, value: 0 },
        )
    }

    /// Puts the state a slice starts from into the first row, each counter
    /// into the column that the first step fills with the same counter.
    pub fn assign_initialization_state(
        &self,
        initialization_state: &InitializationState<u32>,
    ) -> (r: InitializationState<AssignedCell>)
        ensures
            r == state_cells(*initialization_state),
    {
        InitializationState {
            eid: first_row(EventTableColumn::Eid, initialization_state.eid),
            fid: first_row(EventTableColumn::Fid, initialization_state.fid),
            iid: first_row(EventTableColumn::Iid, initialization_state.iid),
            frame_id: first_row(EventTableColumn::FrameId, initialization_state.frame_id),
            sp: first_row(EventTableColumn::Sp, initialization_state.sp),
            host_public_inputs: first_row(
                EventTableColumn::InputIndex,
                initialization_state.host_public_inputs,
            ),
            context_in_index: first_row(
                EventTableColumn::ContextInputIndex,
                initialization_state.context_in_index,
            ),
            context_out_index: first_row(
                EventTableColumn::ContextOutputIndex,
                initialization_state.context_out_index,
            ),
            external_host_call_call_index: first_row(
                EventTableColumn::ExternalHostCallIndex,
                initialization_state.external_host_call_call_index,
            ),
            initial_memory_pages: first_row(
                EventTableColumn::Mpages,
                initialization_state.initial_memory_pages,
            ),
            maximal_memory_pages: first_row(
                EventTableColumn::MaximalMemoryPages,
                initialization_state.maximal_memory_pages,
            ),
            jops: match initialization_state.jops {
                Some(jops) => Some(first_row(EventTableColumn::Jops, jops)),
                None => None,
            },
        }
    }

    /// The rows of the steps of a slice and the row that ends them.
    ///
    /// In the pass that only fixes the shape of the circuit there is no
    /// witness, and no row is filled; the same holds of a slice without
    /// steps.
    pub fn assign_entries(
        &self,
        event_table: &EventTableWithMemoryInfo,
        configure_table: &ConfigureTable,
        initialization_state: &InitializationState<u32>,
        rest_mops: u32,
        jops: u32,
        has_witness: bool,
    ) -> (r: EventTableRows)
        requires
            has_witness ==> {
                &&& event_table.0@.len() * EVENT_TABLE_ENTRY_ROWS <= usize::MAX
                &&& counters_fit(*initialization_state, event_table.events())
                &&& end_fits(event_table.events())
                &&& rest_mops >= total(Counter::MemoryWritingOps, event_table.events())
                &&& initialization_state.jops is None ==> jops >= total(
                    Counter::JumpOps,
                    event_table.events(),
                )
                &&& initialization_state.jops is Some ==> jops + total(
                    Counter::JumpOps,
                    event_table.events(),
                ) <= u32::MAX
            },
        ensures
            rows_are(
                r,
                event_table.events(),
                *configure_table,
                *initialization_state,
                rest_mops,
                jops,
                has_witness,
            ),
    {
        let n = event_table.0.len();
        if !has_witness || n == 0 {
            return EventTableRows { rows: Vec::new(), terminate: None };
        }
        let ghost events = event_table.events();
        let continuation = initialization_state.jops.is_some();
        let last = event_table.0[n - 1].eentry;
        proof {
            assert(events.last() == last);
        }
        let drop = match last.inst.opcode {
            Opcode::Return { drop, .. } => drop,
            _ => 0,
        };
        let terminate = Status {
            eid: last.eid + 1,
            fid: 0,
            iid: 0,
            sp: last.sp + drop,
            last_jump_eid: 0,
            allocated_memory_pages: last.allocated_memory_pages,
        };

        let mut host_public_inputs = initialization_state.host_public_inputs;
        let mut context_in_index = initialization_state.context_in_index;
        let mut context_out_index = initialization_state.context_out_index;
        let mut external_host_call_call_index = initialization_state.external_host_call_call_index;
        let mut rest_mops = rest_mops;
        let mut jops = jops;
        let ghost rest_mops0 = rest_mops;
        let ghost jops0 = jops;

        let mut rows: Vec<EventTableRow> = Vec::new();
        let mut offset: usize = 0;
        let mut index: usize = 0;
        while index < n
            invariant
                n == event_table.0@.len(),
                events == event_table.events(),
                n * EVENT_TABLE_ENTRY_ROWS <= usize::MAX,
                index <= n,
                continuation == (initialization_state.jops is Some),
                terminate == terminate_status(events),
                counters_fit(*initialization_state, events),
                rest_mops0 >= total(Counter::MemoryWritingOps, events),
                !continuation ==> jops0 >= total(Counter::JumpOps, events),
                continuation ==> jops0 + total(Counter::JumpOps, events) <= u32::MAX,
                offset == index * EVENT_TABLE_ENTRY_ROWS,
                host_public_inputs == running(
                    initialization_state.host_public_inputs,
                    Counter::HostPublicInputs,
                    events,
                    index as int,
                ),
                context_in_index == running(
                    initialization_state.context_in_index,
                    Counter::ContextInputs,
                    events,
                    index as int,
                ),
                context_out_index == running(
                    initialization_state.context_out_index,
                    Counter::ContextOutputs,
                    events,
                    index as int,
                ),
                external_host_call_call_index == running(
                    initialization_state.external_host_call_call_index,
                    Counter::ExternalHostCalls,
                    events,
                    index as int,
                ),
                rest_mops == rest_mops0 - total_before(
                    Counter::MemoryWritingOps,
                    events,
                    index as int,
                ),
                jops == jops_at(jops0, continuation, events, index as int),
                rows@ == Seq::new(
                    index as nat,
                    |i: int|
                        row_at(
                            events,
                            *configure_table,
                            *initialization_state,
                            rest_mops0,
                            jops0,
                            i,
                        ),
                ),
            decreases n - index,
        {
            let entry = event_table.0[index].eentry;
            let next = if index + 1 < n {
                Status::of(event_table.0[index + 1].eentry)
            } else {
                terminate
            };
            proof {
                assert(events[index as int] == entry);
                if index + 1 < n {
                    assert(events[index + 1] == event_table.0@[index + 1].eentry);
                }
                lemma_total_split(Counter::MemoryWritingOps, events, index as int);
                lemma_total_split(Counter::JumpOps, events, index as int);
                lemma_running_fits(
                    initialization_state.host_public_inputs,
                    Counter::HostPublicInputs,
                    events,
                    index as int,
                );
                lemma_running_fits(
                    initialization_state.context_in_index,
                    Counter::ContextInputs,
                    events,
                    index as int,
                );
                lemma_running_fits(
                    initialization_state.context_out_index,
                    Counter::ContextOutputs,
                    events,
                    index as int,
                );
                lemma_running_fits(
                    initialization_state.external_host_call_call_index,
                    Counter::ExternalHostCalls,
                    events,
                    index as int,
                );
                lemma_weight_bound(Counter::JumpOps, entry);
            }
            let step_status = StepStatus {
                current: Status::of(entry),
                next,
                current_external_host_call_index: external_host_call_call_index,
                configure_table: *configure_table,
                host_public_inputs,
                context_in_index,
                context_out_index,
            };
            let row = EventTableRow {
                offset,
                class: entry.inst.opcode.class(),
                rest_mops,
                jops,
                input_index: host_public_inputs,
                context_input_index: context_in_index,
                context_output_index: context_out_index,
                external_host_call_index: external_host_call_call_index,
                sp: entry.sp,
                mpages: entry.allocated_memory_pages,
                maximal_memory_pages: configure_table.maximal_memory_pages,
                frame_id: entry.last_jump_eid,
                eid: entry.eid,
                fid: entry.inst.fid,
                iid: entry.inst.iid,
                inst: entry.inst,
                step_status,
            };
            proof {
                assert(row == row_at(
                    events,
                    *configure_table,
                    *initialization_state,
                    rest_mops0,
                    jops0,
                    index as int,
                ));
            }
            rows.push(row);

            if is_host_public_input(&entry) {
                host_public_inputs += 1;
            }
            if is_context_input_op(&entry) {
                context_in_index += 1;
            }
            if is_context_output_op(&entry) {
                context_out_index += 1;
            }
            if is_external_host_call(&entry) {
                external_host_call_call_index += 1;
            }
            rest_mops -= memory_writing_ops(&entry);
            if continuation {
                jops += crate::circuits::etable::jops(&entry);
            } else {
                jops -= crate::circuits::etable::jops(&entry);
            }
            offset = offset + EVENT_TABLE_ENTRY_ROWS;
            index += 1;
            proof {
                assert(rows@ =~= Seq::new(
                    index as nat,
                    |i: int|
                        row_at(
                            events,
                            *configure_table,
                            *initialization_state,
                            rest_mops0,
                            jops0,
                            i,
                        ),
                ));
            }
        }
        let terminate_row = TerminateRow {
            offset,
            rest_mops,
            jops,
            input_index: host_public_inputs,
            context_input_index: context_in_index,
            context_output_index: context_out_index,
            external_host_call_index: external_host_call_call_index,
            sp: terminate.sp,
            mpages: terminate.allocated_memory_pages,
            maximal_memory_pages: configure_table.maximal_memory_pages,
            frame_id: terminate.last_jump_eid,
            eid: terminate.eid,
            fid: terminate.fid,
            iid: terminate.iid,
        };
        EventTableRows { rows, terminate: Some(terminate_row) }
    }

    /// Lays out the event table of one slice.
    ///
    /// Fails where the slice has more steps than the table has room for. The
    /// accumulators start at what the slice holds: the rows of a slice that
    /// is assigned count its memory-writing operations down to zero.
    pub fn assign(
        &self,
        event_table: &EventTableWithMemoryInfo,
        configure_table: &ConfigureTable,
        initialization_state: &InitializationState<u32>,
        has_witness: bool,
    ) -> (r: Result<EventTableAssignment, CircuitOverflowError>)
        requires
            has_witness ==> counters_fit(*initialization_state, event_table.events()) && end_fits(
                event_table.events(),
            ),
        ensures
            r is Err <==> event_table.0@.len() * EVENT_TABLE_ENTRY_ROWS > self.max_available_rows,
            r matches Err(e) ==> e.steps == event_table.0@.len() && e.capability
                == self.spec_capability(),
            r matches Ok(a) ==> is_assignment(
                *self,
                event_table.events(),
                *configure_table,
                *initialization_state,
                has_witness,
                a,
            ),
    {
        let n = event_table.0.len();
        if n > self.capability() {
            return Err(CircuitOverflowError { steps: n, capability: self.capability() });
        }
        proof {
            let events = event_table.events();
            lemma_total_split(Counter::MemoryWritingOps, events, n as int);
            lemma_total_bound(Counter::MemoryWritingOps, events, n as int);
            lemma_total_split(Counter::JumpOps, events, n as int);
            lemma_total_bound(Counter::JumpOps, events, n as int);
        }
        let continuation = initialization_state.jops.is_some();
        let selectors = self.init(continuation);
        let (rest_mops_cell, jops_cell) = self.assign_rest_ops_first_step();
        let (rest_mops, jops) = self.compute_rest_mops_and_jops(event_table, initialization_state);
        let pre_initialization_state_cells = self.assign_initialization_state(initialization_state);
        let entries = self.assign_entries(
            event_table,
            configure_table,
            initialization_state,
            rest_mops,
            jops,
            has_witness,
        );
        Ok(
            EventTableAssignment {
                selectors,
                initialization_state: pre_initialization_state_cells,
                entries,
                permutation_cells: EventTablePermutationCells {
                    rest_mops: Some(rest_mops_cell.cell),
                    pre_initialization_state: cells_of(pre_initialization_state_cells),
                    rest_jops: if continuation {
                        Some(jops_cell.cell)
                    } else {
                        None
                    },
                },
            },
        )
    }
}

/// The cells of a record of assigned cells.
pub open spec fn spec_cells_of(state: InitializationState<AssignedCell>) -> InitializationState<Cell> {
    InitializationState {
        eid: state.eid.cell,
        fid: state.fid.cell,
        iid: state.iid.cell,
        frame_id: state.frame_id.cell,
        sp: state.sp.cell,
        host_public_inputs: state.host_public_inputs.cell,
        context_in_index: state.context_in_index.cell,
        context_out_index: state.context_out_index.cell,
        external_host_call_call_index: state.external_host_call_call_index.cell,
        initial_memory_pages: state.initial_memory_pages.cell,
        maximal_memory_pages: state.maximal_memory_pages.cell,
        jops: match state.jops {
            Some(jops) => Some(jops.cell),
            None => None,
        },
    }
}

#[verifier::when_used_as_spec(spec_cells_of)]
pub fn cells_of(state: InitializationState<AssignedCell>) -> (r: InitializationState<Cell>)
    ensures
        r == spec_cells_of(state),
{
    InitializationState {
        eid: state.eid.cell,
        fid: state.fid.cell,
        iid: state.iid.cell,
        frame_id: state.frame_id.cell,
        sp: state.sp.cell,
        host_public_inputs: state.host_public_inputs.cell,
        context_in_index: state.context_in_index.cell,
        context_out_index: state.context_out_index.cell,
        external_host_call_call_index: state.external_host_call_call_index.cell,
        initial_memory_pages: state.initial_memory_pages.cell,
        maximal_memory_pages: state.maximal_memory_pages.cell,
        jops: match state.jops {
            Some(jops) => Some(jops.cell),
            None => None,
        },
    }
}

/// What the first row holds of the count of jump operations.
pub open spec fn first_jops(events: Seq<EventTableEntry>, init: InitializationState<u32>) -> nat {
    match init.jops {
        Some(jops) => jops as nat,
        None => total(Counter::JumpOps, events),
    }
}

/// Whether `r` holds the rows of `events`: none in the pass without a
/// witness and for a slice without steps, else one row for each step and the
/// row that ends them.
pub open spec fn rows_are(
    r: EventTableRows,
    events: Seq<EventTableEntry>,
    configure_table: ConfigureTable,
    init: InitializationState<u32>,
    rest_mops: u32,
    jops: u32,
    has_witness: bool,
) -> bool {
    if !has_witness || events.len() == 0 {
        r.rows@.len() == 0 && r.terminate is None
    } else {
        &&& r.rows@ == Seq::new(
            events.len(),
            |i: int| row_at(events, configure_table, init, rest_mops, jops, i),
        )
        &&& r.terminate == Some(terminate_row(events, configure_table, init, rest_mops, jops))
    }
}

/// Whether `a` is what the chip assigns for a slice that fits the table.
pub open spec fn is_assignment(
    chip: EventTableChip,
    events: Seq<EventTableEntry>,
    configure_table: ConfigureTable,
    init: InitializationState<u32>,
    has_witness: bool,
    a: EventTableAssignment,
) -> bool {
    &&& a.selectors.offsets@ == Seq::new(
        chip.spec_capability() as nat,
        |i: int| (i * EVENT_TABLE_ENTRY_ROWS) as usize,
    )
    &&& a.selectors.terminate_offset == chip.spec_capability() * EVENT_TABLE_ENTRY_ROWS
    &&& a.selectors.rest_jops_terminates == (init.jops is None)
    &&& a.initialization_state == state_cells(init)
    &&& a.permutation_cells == (EventTablePermutationCells {
        rest_mops: Some(Cell { column: EventTableColumn::RestMops, offset: 0 }),
        pre_initialization_state: spec_cells_of(state_cells(init)),
        rest_jops: if init.jops is Some {
            Some(Cell { column: EventTableColumn::Jops, offset: 0 })
        } else {
            None
        },
    })
    &&& rows_are(
        a.entries,
        events,
        configure_table,
        init,
        total(Counter::MemoryWritingOps, events) as u32,
        first_jops(events, init) as u32,
        has_witness,
    )
}

/// In the rows of a slice the countdown of memory-writing operations holds,
/// at every step, the number of such operations that the step and the steps
/// after it perform, and it is zero in the row that ends the slice. Where
/// the execution is not split, the same holds of jump operations.
pub proof fn lemma_rest_ops_count_what_remains(
    events: Seq<EventTableEntry>,
    configure_table: ConfigureTable,
    init: InitializationState<u32>,
    i: int,
)
    requires
        0 <= i < events.len(),
        total(Counter::MemoryWritingOps, events) <= u32::MAX,
        init.jops is None ==> total(Counter::JumpOps, events) <= u32::MAX,
    ensures
        row_at(
            events,
            configure_table,
            init,
            total(Counter::MemoryWritingOps, events) as u32,
            first_jops(events, init) as u32,
            i,
        ).rest_mops == total_from(Counter::MemoryWritingOps, events, i),
        terminate_row(
            events,
            configure_table,
            init,
            total(Counter::MemoryWritingOps, events) as u32,
            first_jops(events, init) as u32,
        ).rest_mops == 0,
        init.jops is None ==> row_at(
            events,
            configure_table,
            init,
            total(Counter::MemoryWritingOps, events) as u32,
            first_jops(events, init) as u32,
            i,
        ).jops == total_from(Counter::JumpOps, events, i),
        init.jops is None ==> terminate_row(
            events,
            configure_table,
            init,
            total(Counter::MemoryWritingOps, events) as u32,
            first_jops(events, init) as u32,
        ).jops == 0,
{
    let n = events.len() as int;
    lemma_total_split(Counter::MemoryWritingOps, events, i);
    lemma_total_split(Counter::MemoryWritingOps, events, n);
    lemma_total_split(Counter::JumpOps, events, i);
    lemma_total_split(Counter::JumpOps, events, n);
}

/// `value` in the first row of `column`.
pub open spec fn spec_first_row(column: EventTableColumn, value: u32) -> AssignedCell {
    AssignedCell { cell: Cell { column, offset: 0 }, value: value as u64 }
}

#[verifier::when_used_as_spec(spec_first_row)]
pub fn first_row(column: EventTableColumn, value: u32) -> (r: AssignedCell)
    ensures
        r == spec_first_row(column, value),
{
    AssignedCell { cell: Cell { column, offset: 0 }, value: value as u64 }
}

/// The cells that hold the state a slice starts from.
pub open spec fn state_cells(state: InitializationState<u32>) -> InitializationState<AssignedCell> {
    InitializationState {
        eid: spec_first_row(EventTableColumn::Eid, state.eid),
        fid: spec_first_row(EventTableColumn::Fid, state.fid),
        iid: spec_first_row(EventTableColumn::Iid, state.iid),
        frame_id: spec_first_row(EventTableColumn::FrameId, state.frame_id),
        sp: spec_first_row(EventTableColumn::Sp, state.sp),
        host_public_inputs: spec_first_row(EventTableColumn::InputIndex, state.host_public_inputs),
        context_in_index: spec_first_row(EventTableColumn::ContextInputIndex, state.context_in_index),
        context_out_index: spec_first_row(
            EventTableColumn::ContextOutputIndex,
            state.context_out_index,
        ),
        external_host_call_call_index: spec_first_row(
            EventTableColumn::ExternalHostCallIndex,
            state.external_host_call_call_index,
        ),
        initial_memory_pages: spec_first_row(EventTableColumn::Mpages, state.initial_memory_pages),
        maximal_memory_pages: spec_first_row(
            EventTableColumn::MaximalMemoryPages,
            state.maximal_memory_pages,
        ),
        jops: match state.jops {
            Some(jops) => Some(spec_first_row(EventTableColumn::Jops, jops)),
            None => None,
        },
    }
}

} // verus!
