//! The partition of an execution into slices of bounded length, and the
//! state at each boundary that binds a slice to the next.

use vstd::prelude::*;
use vstd::arithmetic::div_mod::lemma_fundamental_div_mod;
use vstd::arithmetic::div_mod::lemma_fundamental_div_mod_converse;
use crate::circuits::etable::assign::check_counters_fit;
use crate::circuits::etable::assign::counters_fit;
use crate::circuits::etable::assign::lemma_running_fits;
use crate::circuits::etable::assign::running;
use crate::circuits::etable::assign::terminate_status;
use crate::circuits::utils::step_status::Status;
use crate::circuits::etable::is_context_input_op;
use crate::circuits::etable::is_context_output_op;
use crate::circuits::etable::is_external_host_call;
use crate::circuits::etable::is_host_public_input;
use crate::circuits::etable::jops;
use crate::circuits::etable::Counter;
use crate::circuits::configures;
use crate::circuits::TestCircuit;
use crate::specs::etable::check_end_fits;
use crate::specs::etable::end_fits;
use crate::specs::etable::return_drop;
use crate::specs::etable::EventTable;
use crate::specs::etable::EventTableEntry;
use crate::specs::imtable::InitMemoryTable;
use crate::specs::imtable::InitMemoryTableEntry;
use crate::specs::itable::Opcode;
use crate::specs::jtable::JumpTable;
use crate::specs::jtable::JumpTableEntry;
use crate::specs::mtable::ops_in_step_order;
use crate::specs::mtable::AccessType;
use crate::specs::mtable::MTable;
use crate::specs::mtable::MemoryTableEntry;
use crate::specs::state::InitializationState;
use crate::specs::tables::CompilationTable;
use crate::specs::tables::CompilationTableView;
use crate::specs::tables::ExecutionTable;
use crate::specs::tables::ExecutionTableView;
use crate::specs::tables::Tables;
use crate::specs::tables::TablesView;

verus! {

/// The smaller of two numbers.
pub open spec fn least(a: nat, b: nat) -> nat {
    if a <= b {
        a
    } else {
        b
    }
}

/// The number of steps that come before slice `k`, where an execution of
/// `len` steps is cut into slices of `capacity` steps.
pub open spec fn start_of(len: nat, capacity: nat, k: nat) -> nat
    decreases k,
{
    if k == 0 {
        0
    } else {
        least(start_of(len, capacity, (k - 1) as nat) + capacity, len)
    }
}

/// The number of slices: as many as it takes to hold `len` steps, and one
/// for an execution without steps.
pub open spec fn slice_count(len: nat, capacity: nat) -> nat {
    if len == 0 {
        1
    } else {
        ((len - 1) / capacity as int + 1) as nat
    }
}

/// The steps of slice `k`.
pub open spec fn slice_events(events: Seq<EventTableEntry>, capacity: nat, k: nat) -> Seq<
    EventTableEntry,
> {
    events.subrange(
        start_of(events.len(), capacity, k) as int,
        start_of(events.len(), capacity, k + 1) as int,
    )
}

/// The steps of the first `k` slices, one slice after the other.
pub open spec fn joined_events(events: Seq<EventTableEntry>, capacity: nat, k: nat) -> Seq<
    EventTableEntry,
>
    decreases k,
{
    if k == 0 {
        Seq::empty()
    } else {
        joined_events(events, capacity, (k - 1) as nat) + slice_events(
            events,
            capacity,
            (k - 1) as nat,
        )
    }
}

/// Slice `k` starts after `k` full slices, or at the end of the execution.
pub proof fn lemma_start_of(len: nat, capacity: nat, k: nat)
    requires
        capacity > 0,
    ensures
        start_of(len, capacity, k) == least(k * capacity, len),
        start_of(len, capacity, k) <= start_of(len, capacity, k + 1) <= len,
    decreases k,
{
    if k > 0 {
        lemma_start_of(len, capacity, (k - 1) as nat);
        assert((k - 1) * capacity + capacity == k * capacity) by (nonlinear_arith);
        assert(start_of(len, capacity, k) == least(
            start_of(len, capacity, (k - 1) as nat) + capacity,
            len,
        ));
    } else {
        assert(k * capacity == 0) by (nonlinear_arith)
            requires
                k == 0,
        ;
    }
    assert((k + 1) * capacity == k * capacity + capacity) by (nonlinear_arith);
    assert(k * capacity >= 0) by (nonlinear_arith);
    assert(start_of(len, capacity, k + 1) == least(start_of(len, capacity, k) + capacity, len));
}

/// Slice `k` exists exactly if it is the first or steps are left for it.
pub proof fn lemma_slice_count(len: nat, capacity: nat, k: nat)
    requires
        capacity > 0,
    ensures
        k < slice_count(len, capacity) <==> k == 0 || start_of(len, capacity, k) < len,
        k >= slice_count(len, capacity) ==> start_of(len, capacity, k) == len,
        k + 1 == slice_count(len, capacity) <==> start_of(len, capacity, k + 1) == len && (k == 0
            || start_of(len, capacity, k) < len),
{
    lemma_start_of(len, capacity, k);
    lemma_start_of(len, capacity, k + 1);
    if len > 0 {
        let q = (len - 1) / capacity as int;
        let r = (len - 1) % capacity as int;
        lemma_fundamental_div_mod(len - 1, capacity as int);
        assert(len - 1 == capacity * q + r);
        assert(0 <= r < capacity);
        assert(q >= 0) by (nonlinear_arith)
            requires
                capacity * q + r >= 0,
                r < capacity,
                capacity > 0,
        ;
        assert(k <= q ==> k * capacity <= q * capacity) by (nonlinear_arith)
            requires
                capacity > 0,
        ;
        assert(k > q ==> k * capacity >= (q + 1) * capacity) by (nonlinear_arith)
            requires
                capacity > 0,
        ;
        assert((q + 1) * capacity == q * capacity + capacity) by (nonlinear_arith);
        assert(q * capacity == capacity * q) by (nonlinear_arith);
        assert(k + 1 <= q ==> (k + 1) * capacity <= q * capacity) by (nonlinear_arith)
            requires
                capacity > 0,
        ;
        assert(k + 1 > q ==> (k + 1) * capacity >= (q + 1) * capacity) by (nonlinear_arith)
            requires
                capacity > 0,
        ;
    } else {
        assert(k * capacity >= 0) by (nonlinear_arith);
    }
}

/// Every slice but the last holds `capacity` steps; the last holds what is
/// left, at least one step unless the execution has none.
pub proof fn lemma_slice_sizes(events: Seq<EventTableEntry>, capacity: nat, k: nat)
    requires
        capacity > 0,
        k < slice_count(events.len(), capacity),
    ensures
        k + 1 < slice_count(events.len(), capacity) ==> slice_events(events, capacity, k).len()
            == capacity,
        k + 1 == slice_count(events.len(), capacity) ==> slice_events(events, capacity, k).len()
            == events.len() - k * capacity,
        events.len() > 0 ==> slice_events(events, capacity, k).len() >= 1,
        slice_events(events, capacity, k).len() <= capacity,
{
    let len = events.len();
    lemma_start_of(len, capacity, k);
    lemma_start_of(len, capacity, k + 1);
    lemma_slice_count(len, capacity, k);
    lemma_slice_count(len, capacity, k + 1);
    assert((k + 1) * capacity == k * capacity + capacity) by (nonlinear_arith);
    assert(k == 0 ==> k * capacity == 0) by (nonlinear_arith);
}

/// The first `k` slices, joined in their order, are the steps before slice
/// `k`: no step is lost, added, or moved.
pub proof fn lemma_joined_events(events: Seq<EventTableEntry>, capacity: nat, k: nat)
    requires
        capacity > 0,
    ensures
        joined_events(events, capacity, k) == events.take(
            start_of(events.len(), capacity, k) as int,
        ),
    decreases k,
{
    let len = events.len();
    lemma_start_of(len, capacity, k);
    if k > 0 {
        lemma_joined_events(events, capacity, (k - 1) as nat);
        lemma_start_of(len, capacity, (k - 1) as nat);
        assert(joined_events(events, capacity, k) =~= events.take(
            start_of(len, capacity, k) as int,
        ));
    } else {
        assert(joined_events(events, capacity, k) =~= events.take(0));
    }
}

/// All slices, joined in their order, are the event table that was sliced.
pub proof fn lemma_slices_join_to_whole(events: Seq<EventTableEntry>, capacity: nat)
    requires
        capacity > 0,
    ensures
        joined_events(events, capacity, slice_count(events.len(), capacity)) == events,
{
    let count = slice_count(events.len(), capacity);
    lemma_joined_events(events, capacity, count);
    lemma_slice_count(events.len(), capacity, count);
    assert(events.take(events.len() as int) =~= events);
}

/// Slicing a slice again, with the same capacity, leaves it as it is: it
/// yields one slice, which holds the same steps.
pub proof fn lemma_slicing_is_idempotent(events: Seq<EventTableEntry>, capacity: nat, k: nat)
    requires
        capacity > 0,
        k < slice_count(events.len(), capacity),
    ensures
        slice_count(slice_events(events, capacity, k).len(), capacity) == 1,
        slice_events(slice_events(events, capacity, k), capacity, 0) == slice_events(
            events,
            capacity,
            k,
        ),
{
    let slice = slice_events(events, capacity, k);
    lemma_slice_sizes(events, capacity, k);
    lemma_start_of(slice.len(), capacity, 0);
    lemma_start_of(slice.len(), capacity, 1);
    assert(1 * capacity == capacity) by (nonlinear_arith);
    assert(slice_events(slice, capacity, 0) =~= slice);
    if slice.len() > 0 {
        lemma_fundamental_div_mod_converse(slice.len() - 1, capacity as int, 0, slice.len() - 1);
    }
}

/// Whether the execution ids of `events` count up from `first` without a
/// gap.
pub open spec fn eids_count_from(events: Seq<EventTableEntry>, first: int) -> bool {
    forall|i: int| 0 <= i < events.len() ==> (#[trigger] events[i]).eid == first + i
}

/// Where the execution ids of an execution count up from 1 without a gap,
/// they do so through all of its slices: step `j` of slice `k` has the id
/// that the steps of the slices before it and the steps before it in its own
/// slice lead up to.
pub proof fn lemma_eids_run_through_slices(
    events: Seq<EventTableEntry>,
    capacity: nat,
    k: nat,
    j: int,
)
    requires
        capacity > 0,
        eids_count_from(events, 1),
        k < slice_count(events.len(), capacity),
        0 <= j < slice_events(events, capacity, k).len(),
    ensures
        slice_events(events, capacity, k)[j].eid == k * capacity + j + 1,
        eids_count_from(slice_events(events, capacity, k), (k * capacity + 1) as int),
{
    let len = events.len();
    lemma_start_of(len, capacity, k);
    lemma_start_of(len, capacity, k + 1);
    lemma_slice_count(len, capacity, k);
    let slice = slice_events(events, capacity, k);
    assert forall|i: int| 0 <= i < slice.len() implies (#[trigger] slice[i]).eid == k * capacity + 1
        + i by {
        assert(slice[i] == events[start_of(len, capacity, k) + i]);
    }
}

/// The accesses among `ops` whose execution id lies between `lo` and `hi`,
/// in their order.
pub open spec fn ops_within(ops: Seq<MemoryTableEntry>, lo: u32, hi: u32) -> Seq<MemoryTableEntry>
    decreases ops.len(),
{
    if ops.len() == 0 {
        Seq::empty()
    } else {
        let before = ops_within(ops.drop_last(), lo, hi);
        if lo <= ops.last().eid <= hi {
            before.push(ops.last())
        } else {
            before
        }
    }
}

/// The calls among `jumps` whose execution id lies between `lo` and `hi`,
/// in their order.
pub open spec fn jumps_within(jumps: Seq<JumpTableEntry>, lo: u32, hi: u32) -> Seq<JumpTableEntry>
    decreases jumps.len(),
{
    if jumps.len() == 0 {
        Seq::empty()
    } else {
        let before = jumps_within(jumps.drop_last(), lo, hi);
        if lo <= jumps.last().eid <= hi {
            before.push(jumps.last())
        } else {
            before
        }
    }
}

/// The memory accesses that belong to the steps of a slice: those whose
/// execution id the slice spans. A step's accesses are never parted.
pub open spec fn slice_ops(mtable: Seq<MemoryTableEntry>, chunk: Seq<EventTableEntry>) -> Seq<
    MemoryTableEntry,
> {
    if chunk.len() == 0 {
        Seq::empty()
    } else {
        ops_within(mtable, chunk.first().eid, chunk.last().eid)
    }
}

/// The calls that belong to the steps of a slice.
pub open spec fn slice_jumps(jtable: Seq<JumpTableEntry>, chunk: Seq<EventTableEntry>) -> Seq<
    JumpTableEntry,
> {
    if chunk.len() == 0 {
        Seq::empty()
    } else {
        jumps_within(jtable, chunk.first().eid, chunk.last().eid)
    }
}

/// The initial memory that `ops` leave behind: `imtable` with the value of
/// every write, in the order of the writes.
pub open spec fn image_after(imtable: Seq<InitMemoryTableEntry>, ops: Seq<MemoryTableEntry>) -> Seq<
    InitMemoryTableEntry,
>
    decreases ops.len(),
{
    if ops.len() == 0 {
        imtable
    } else {
        let before = image_after(imtable, ops.drop_last());
        if ops.last().atype == AccessType::Write {
            before.push(InitMemoryTableEntry::spec_left_by(ops.last()))
        } else {
            before
        }
    }
}

/// What the count of jump operations holds before step `i`, where it is
/// kept.
pub open spec fn jops_before(init: InitializationState<u32>, events: Seq<EventTableEntry>, i: int) -> Option<
    u32,
> {
    match init.jops {
        Some(jops) => Some(running(jops, Counter::JumpOps, events, i) as u32),
        None => None,
    }
}

/// The state of an execution before step `i`, where it starts from `init`.
///
/// Before the first step it is `init`. Before a later step it is what that
/// step starts from, with the counters as the steps before it left them.
/// After the last step it is the state in which the execution ends: the
/// next execution id, no instruction, the root frame, and the stack as the
/// last step leaves it, a return having freed what it drops.
pub open spec fn boundary_state(
    events: Seq<EventTableEntry>,
    init: InitializationState<u32>,
    i: int,
) -> InitializationState<u32> {
    if i <= 0 || events.len() == 0 {
        init
    } else if i < events.len() {
        let entry = events[i];
        InitializationState {
            eid: entry.eid,
            fid: entry.inst.fid,
            iid: entry.inst.iid,
            frame_id: entry.last_jump_eid,
            sp: entry.sp,
            host_public_inputs: running(
                init.host_public_inputs,
                Counter::HostPublicInputs,
                events,
                i,
            ) as u32,
            context_in_index: running(init.context_in_index, Counter::ContextInputs, events, i) as u32,
            context_out_index: running(
                init.context_out_index,
                Counter::ContextOutputs,
                events,
                i,
            ) as u32,
            external_host_call_call_index: running(
                init.external_host_call_call_index,
                Counter::ExternalHostCalls,
                events,
                i,
            ) as u32,
            initial_memory_pages: entry.allocated_memory_pages,
            maximal_memory_pages: init.maximal_memory_pages,
            jops: jops_before(init, events, i),
        }
    } else {
        let n = events.len() as int;
        let last = events.last();
        InitializationState {
            eid: (last.eid + 1) as u32,
            fid: 0,
            iid: 0,
            frame_id: 0,
            sp: (last.sp + return_drop(last)) as u32,
            host_public_inputs: running(
                init.host_public_inputs,
                Counter::HostPublicInputs,
                events,
                n,
            ) as u32,
            context_in_index: running(init.context_in_index, Counter::ContextInputs, events, n) as u32,
            context_out_index: running(
                init.context_out_index,
                Counter::ContextOutputs,
                events,
                n,
            ) as u32,
            external_host_call_call_index: running(
                init.external_host_call_call_index,
                Counter::ExternalHostCalls,
                events,
                n,
            ) as u32,
            initial_memory_pages: last.allocated_memory_pages,
            maximal_memory_pages: init.maximal_memory_pages,
            jops: jops_before(init, events, n),
        }
    }
}

/// The initial memory that slice `k` starts from: that of the execution
/// with the writes of the slices before it.
pub open spec fn image_at(origin: TablesView, capacity: nat, k: nat) -> Seq<InitMemoryTableEntry>
    decreases k,
{
    if k == 0 {
        origin.compilation_tables.imtable
    } else {
        image_after(
            image_at(origin, capacity, (k - 1) as nat),
            slice_ops(
                origin.execution_tables.mtable,
                slice_events(origin.execution_tables.etable, capacity, (k - 1) as nat),
            ),
        )
    }
}

/// The compilation table as it stands before slice `k`: the static tables
/// of the execution, the initial memory and the state that the slice starts
/// from.
pub open spec fn compilation_at(origin: TablesView, capacity: nat, k: nat) -> CompilationTableView {
    let events = origin.execution_tables.etable;
    CompilationTableView {
        itable: origin.compilation_tables.itable,
        imtable: image_at(origin, capacity, k),
        elem_table: origin.compilation_tables.elem_table,
        configure_table: origin.compilation_tables.configure_table,
        static_jtable: origin.compilation_tables.static_jtable,
        fid_of_entry: origin.compilation_tables.fid_of_entry,
        initialization_state: boundary_state(
            events,
            origin.compilation_tables.initialization_state,
            start_of(events.len(), capacity, k) as int,
        ),
    }
}

/// The tables of slice `k` of `origin`.
pub open spec fn slice_tables(origin: TablesView, capacity: nat, k: nat) -> TablesView {
    let events = origin.execution_tables.etable;
    let chunk = slice_events(events, capacity, k);
    TablesView {
        compilation_tables: compilation_at(origin, capacity, k),
        execution_tables: ExecutionTableView {
            etable: chunk,
            mtable: slice_ops(origin.execution_tables.mtable, chunk),
            jtable: slice_jumps(origin.execution_tables.jtable, chunk),
        },
        post_image_table: compilation_at(origin, capacity, k + 1),
        is_last_slice: k + 1 == slice_count(events.len(), capacity),
    }
}

/// Whether an execution can be cut into slices of `capacity` steps: the
/// capacity is not zero, and the states at the boundaries fit into 32 bits.
pub open spec fn sliceable(origin: TablesView, capacity: nat) -> bool {
    let events = origin.execution_tables.etable;
    &&& capacity > 0
    &&& counters_fit(origin.compilation_tables.initialization_state, events)
    &&& end_fits(events)
}

/// Why an execution cannot be sliced.
#[derive(Clone, Copy, Debug, PartialEq, Eq, Structural, Hash)]
pub enum SliceError {
    /// A slice must have room for at least one step.
    ZeroCapability,
    /// A counter of the state at a boundary would leave its 32 bits.
    StateOverflow,
}

/// One slice of an execution.
#[derive(Debug, PartialEq, Eq)]
pub struct Slice {
    pub table: Tables,
    pub capability: usize,
}

impl Slice {
    pub fn new(table: Tables, capability: usize) -> (r: Self)
        ensures
            r.table == table,
            r.capability == capability,
    {
        Slice { table, capability }
    }

    /// The circuit of the slice.
    pub fn build_circuit(self) -> (r: TestCircuit)
        ensures
            r.tables == self.table,
            configures(r.configure, self.table.compilation_tables),
    {
        TestCircuit::new(self.table)
    }
}

fn copy_range(events: &Vec<EventTableEntry>, start: usize, end: usize) -> (r: Vec<EventTableEntry>)
    requires
        start <= end <= events@.len(),
    ensures
        r@ == events@.subrange(start as int, end as int),
{
    let mut out: Vec<EventTableEntry> = Vec::new();
    let mut i = start;
    while i < end
        invariant
            start <= i <= end <= events@.len(),
            out@ == events@.subrange(start as int, i as int),
        decreases end - i,
    {
        out.push(events[i]);
        i += 1;
        proof {
            assert(out@ =~= events@.subrange(start as int, i as int));
        }
    }
    out
}

fn ops_in(ops: &Vec<MemoryTableEntry>, lo: u32, hi: u32) -> (r: Vec<MemoryTableEntry>)
    ensures
        r@ == ops_within(ops@, lo, hi),
{
    let mut out: Vec<MemoryTableEntry> = Vec::new();
    let mut i: usize = 0;
    while i < ops.len()
        invariant
            i <= ops.len(),
            out@ == ops_within(ops@.take(i as int), lo, hi),
        decreases ops.len() - i,
    {
        let op = ops[i];
        proof {
            assert(ops@.take(i + 1).drop_last() =~= ops@.take(i as int));
            assert(ops@.take(i + 1).last() == op);
        }
        if lo <= op.eid && op.eid <= hi {
            out.push(op);
        }
        i += 1;
    }
    proof {
        assert(ops@.take(i as int) =~= ops@);
    }
    out
}

fn jumps_in(jumps: &Vec<JumpTableEntry>, lo: u32, hi: u32) -> (r: Vec<JumpTableEntry>)
    ensures
        r@ == jumps_within(jumps@, lo, hi),
{
    let mut out: Vec<JumpTableEntry> = Vec::new();
    let mut i: usize = 0;
    while i < jumps.len()
        invariant
            i <= jumps.len(),
            out@ == jumps_within(jumps@.take(i as int), lo, hi),
        decreases jumps.len() - i,
    {
        let jump = jumps[i];
        proof {
            assert(jumps@.take(i + 1).drop_last() =~= jumps@.take(i as int));
            assert(jumps@.take(i + 1).last() == jump);
        }
        if lo <= jump.eid && jump.eid <= hi {
            out.push(jump);
        }
        i += 1;
    }
    proof {
        assert(jumps@.take(i as int) =~= jumps@);
    }
    out
}

/// Appends to `imtable` what the writes among `ops` leave behind.
pub fn update_init_memory_table(imtable: &mut InitMemoryTable, ops: &Vec<MemoryTableEntry>)
    ensures
        final(imtable)@ == image_after(old(imtable)@, ops@),
{
    let mut i: usize = 0;
    while i < ops.len()
        invariant
            i <= ops.len(),
            imtable@ == image_after(old(imtable)@, ops@.take(i as int)),
        decreases ops.len() - i,
    {
        let op = ops[i];
        proof {
            assert(ops@.take(i + 1).drop_last() =~= ops@.take(i as int));
            assert(ops@.take(i + 1).last() == op);
        }
        if op.atype == AccessType::Write {
            imtable.push(InitMemoryTableEntry::left_by(op));
        }
        i += 1;
    }
    proof {
        assert(ops@.take(i as int) =~= ops@);
    }
}

/// Counters that fit at the end of the steps fit before every step, and
/// every step leaves them fitting.
pub proof fn lemma_counters_fit_before(
    init: InitializationState<u32>,
    events: Seq<EventTableEntry>,
    i: int,
)
    requires
        0 <= i <= events.len(),
        counters_fit(init, events),
    ensures
        running(init.host_public_inputs, Counter::HostPublicInputs, events, i) <= u32::MAX,
        running(init.context_in_index, Counter::ContextInputs, events, i) <= u32::MAX,
        running(init.context_out_index, Counter::ContextOutputs, events, i) <= u32::MAX,
        running(init.external_host_call_call_index, Counter::ExternalHostCalls, events, i)
            <= u32::MAX,
        init.jops matches Some(jops) ==> running(jops, Counter::JumpOps, events, i) <= u32::MAX,
        i < events.len() ==> {
            &&& running(init.host_public_inputs, Counter::HostPublicInputs, events, i + 1)
                <= u32::MAX
            &&& running(init.context_in_index, Counter::ContextInputs, events, i + 1) <= u32::MAX
            &&& running(init.context_out_index, Counter::ContextOutputs, events, i + 1) <= u32::MAX
            &&& running(
                init.external_host_call_call_index,
                Counter::ExternalHostCalls,
                events,
                i + 1,
            ) <= u32::MAX
            &&& init.jops matches Some(jops) ==> running(jops, Counter::JumpOps, events, i + 1)
                <= u32::MAX
        },
{
    lemma_running_fits(init.host_public_inputs, Counter::HostPublicInputs, events, i);
    lemma_running_fits(init.context_in_index, Counter::ContextInputs, events, i);
    lemma_running_fits(init.context_out_index, Counter::ContextOutputs, events, i);
    lemma_running_fits(init.external_host_call_call_index, Counter::ExternalHostCalls, events, i);
    if let Some(jops) = init.jops {
        lemma_running_fits(jops, Counter::JumpOps, events, i);
    }
}

/// The state before step `end`, computed from the state before step
/// `start` by going through the steps between them.
pub fn update_initialization_state(
    events: &Vec<EventTableEntry>,
    init: &InitializationState<u32>,
    current: &InitializationState<u32>,
    start: usize,
    end: usize,
) -> (r: InitializationState<u32>)
    requires
        start <= end <= events@.len(),
        start < end || events@.len() == 0,
        counters_fit(*init, events@),
        end_fits(events@),
        *current == boundary_state(events@, *init, start as int),
    ensures
        r == boundary_state(events@, *init, end as int),
{
    let n = events.len();
    if n == 0 {
        return *init;
    }
    let mut host_public_inputs = current.host_public_inputs;
    let mut context_in_index = current.context_in_index;
    let mut context_out_index = current.context_out_index;
    let mut external_host_call_call_index = current.external_host_call_call_index;
    let mut jump_ops: u32 = match current.jops {
        Some(jops) => jops,
        None => 0,
    };
    let mut i = start;
    proof {
        lemma_counters_fit_before(*init, events@, i as int);
    }
    while i < end
        invariant
            start <= i <= end <= n,
            n == events@.len(),
            counters_fit(*init, events@),
            (current.jops is Some) == (init.jops is Some),
            host_public_inputs == running(
                init.host_public_inputs,
                Counter::HostPublicInputs,
                events@,
                i as int,
            ),
            context_in_index == running(
                init.context_in_index,
                Counter::ContextInputs,
                events@,
                i as int,
            ),
            context_out_index == running(
                init.context_out_index,
                Counter::ContextOutputs,
                events@,
                i as int,
            ),
            external_host_call_call_index == running(
                init.external_host_call_call_index,
                Counter::ExternalHostCalls,
                events@,
                i as int,
            ),
            init.jops matches Some(jops) ==> jump_ops == running(
                jops,
                Counter::JumpOps,
                events@,
                i as int,
            ),
        decreases end - i,
    {
        let entry = events[i];
        proof {
            lemma_counters_fit_before(*init, events@, i as int);
        }
        if is_host_public_input(&entry) {
            host_public_inputs += 1;
        }
        if is_context_input_op(&entry) {
            context_in_index += 1;
        }
        if is_context_output_op(&entry) {
            context_out_index += 1;
        }
        if is_external_host_call(&entry) {
            external_host_call_call_index += 1;
        }
        if current.jops.is_some() {
            jump_ops += jops(&entry);
        }
        i += 1;
    }
    let jops = match init.jops {
        Some(_) => Some(jump_ops),
        None => None,
    };
    if end < n {
        let entry = events[end];
        InitializationState {
            eid: entry.eid,
            fid: entry.inst.fid,
            iid: entry.inst.iid,
            frame_id: entry.last_jump_eid,
            sp: entry.sp,
            host_public_inputs,
            context_in_index,
            context_out_index,
            external_host_call_call_index,
            initial_memory_pages: entry.allocated_memory_pages,
            maximal_memory_pages: init.maximal_memory_pages,
            jops,
        }
    } else {
        let last = events[n - 1];
        let drop = match last.inst.opcode {
            Opcode::Return { drop, .. } => drop,
            _ => 0,
        };
        InitializationState {
            eid: last.eid + 1,
            fid: 0,
            iid: 0,
            frame_id: 0,
            sp: last.sp + drop,
            host_public_inputs,
            context_in_index,
            context_out_index,
            external_host_call_call_index,
            initial_memory_pages: last.allocated_memory_pages,
            maximal_memory_pages: init.maximal_memory_pages,
            jops,
        }
    }
}

/// The slices of an execution, handed out one after the other.
pub struct Slices {
    current: CompilationTable,
    execution: ExecutionTable,
    init: InitializationState<u32>,
    capability: usize,
    start: usize,
    started: bool,
    index: Ghost<nat>,
    origin: Ghost<TablesView>,
}

impl Slices {
    /// The tables that are being sliced.
    pub closed spec fn origin(&self) -> TablesView {
        self.origin@
    }

    /// How many slices have been handed out.
    pub closed spec fn index(&self) -> nat {
        self.index@
    }

    /// How many steps a slice holds at most.
    pub closed spec fn spec_capability(&self) -> usize {
        self.capability
    }

    /// How many slices there are in all.
    pub open spec fn spec_num_slices(&self) -> nat {
        slice_count(self.origin().execution_tables.etable.len(), self.spec_capability() as nat)
    }

    /// Whether the slices that were handed out and the state that is kept
    /// for the next one agree with the tables that are being sliced.
    pub closed spec fn wf(&self) -> bool {
        let events = self.origin@.execution_tables.etable;
        &&& sliceable(self.origin@, self.capability as nat)
        &&& self.execution@ == self.origin@.execution_tables
        &&& self.init == self.origin@.compilation_tables.initialization_state
        &&& self.current@ == compilation_at(self.origin@, self.capability as nat, self.index@)
        &&& self.start == start_of(events.len(), self.capability as nat, self.index@)
        &&& self.started == (self.index@ > 0)
        &&& self.index@ <= slice_count(events.len(), self.capability as nat)
    }

    /// Prepares `tables` for slicing into slices of at most `capability`
    /// steps. Every slice gets its own image of the end; the event table of
    /// a slice hands out no execution ids, so its latest id is 0.
    pub fn new(tables: Tables, capability: usize) -> (r: Result<Slices, SliceError>)
        ensures
            r is Ok <==> sliceable(tables@, capability as nat),
            r == Err::<Slices, SliceError>(SliceError::ZeroCapability) <==> capability == 0,
            r matches Ok(slices) ==> {
                &&& slices.wf()
                &&& slices.origin() == tables@
                &&& slices.index() == 0
                &&& slices.spec_capability() == capability
            },
    {
        if capability == 0 {
            return Err(SliceError::ZeroCapability);
        }
        let init = tables.compilation_tables.initialization_state;
        let events = tables.execution_tables.etable.entries();
        if !check_counters_fit(&init, events) {
            return Err(SliceError::StateOverflow);
        }
        if !check_end_fits(events) {
            return Err(SliceError::StateOverflow);
        }
        let ghost origin = tables@;
        Ok(
            Slices {
                current: tables.compilation_tables,
                execution: tables.execution_tables,
                init,
                capability,
                start: 0,
                started: false,
                index: Ghost(0),
                origin: Ghost(origin),
            },
        )
    }

    #[verifier::when_used_as_spec(spec_capability)]
    pub fn capability(&self) -> (r: usize)
        ensures
            r == self.spec_capability(),
    {
        self.capability
    }

    /// How many slices there are in all, those handed out included.
    pub fn num_slices(&self) -> (r: usize)
        requires
            self.wf(),
        ensures
            r == self.spec_num_slices(),
    {
        let n = self.execution.etable.entries().len();
        if n == 0 {
            1
        } else {
            proof {
                vstd::arithmetic::div_mod::lemma_div_is_ordered_by_denominator(
                    (n - 1) as int,
                    1,
                    self.capability as int,
                );
                vstd::arithmetic::div_mod::lemma_div_by_self(1);
                vstd::arithmetic::div_mod::lemma_div_basics((n - 1) as int);
            }
            (n - 1) / self.capability + 1
        }
    }

    /// Hands out the next slice, or `None` when all have been handed out.
    pub fn next(&mut self) -> (r: Option<Slice>)
        requires
            old(self).wf(),
        ensures
            final(self).wf(),
            final(self).origin() == old(self).origin(),
            final(self).spec_capability() == old(self).spec_capability(),
            r is Some <==> old(self).index() < old(self).spec_num_slices(),
            r is None ==> final(self).index() == old(self).index(),
            r matches Some(slice) ==> {
                &&& final(self).index() == old(self).index() + 1
                &&& slice.capability == old(self).spec_capability()
                &&& slice.table@ == slice_tables(
                    old(self).origin(),
                    old(self).spec_capability() as nat,
                    old(self).index(),
                )
                &&& slice.table.execution_tables.etable.spec_get_latest_eid() == 0
            },
    {
        let ghost origin = self.origin@;
        let ghost k = self.index@;
        let ghost capacity = self.capability as nat;
        let events = self.execution.etable.entries();
        let n = events.len();
        let start = self.start;
        proof {
            lemma_slice_count(n as nat, capacity, k);
            lemma_start_of(n as nat, capacity, k);
        }
        if self.started && start == n {
            return None;
        }
        let end = if n - start <= self.capability {
            n
        } else {
            start + self.capability
        };
        let chunk = copy_range(events, start, end);
        let is_last_slice = end == n;
        let mut ops: Vec<MemoryTableEntry> = Vec::new();
        let mut jumps: Vec<JumpTableEntry> = Vec::new();
        if chunk.len() > 0 {
            let lo = chunk[0].eid;
            let hi = chunk[chunk.len() - 1].eid;
            ops = ops_in(self.execution.mtable.entries(), lo, hi);
            jumps = jumps_in(self.execution.jtable.entries(), lo, hi);
        }
        let post_state = update_initialization_state(
            events,
            &self.init,
            &self.current.initialization_state,
            start,
            end,
        );
        let mut post_imtable = self.current.imtable.clone();
        update_init_memory_table(&mut post_imtable, &ops);
        let post = CompilationTable {
            itable: self.current.itable.clone(),
            imtable: post_imtable,
            elem_table: self.current.elem_table.clone(),
            configure_table: self.current.configure_table,
            static_jtable: self.current.static_jtable.clone(),
            fid_of_entry: self.current.fid_of_entry,
            initialization_state: post_state,
        };
        let mut pre = post.clone();
        std::mem::swap(&mut self.current, &mut pre);
        self.start = end;
        self.started = true;
        self.index = Ghost((k + 1) as nat);
        let table = Tables {
            compilation_tables: pre,
            execution_tables: ExecutionTable {
                etable: EventTable::new(chunk),
                mtable: MTable::new(ops),
                jtable: JumpTable::new(jumps),
            },
            post_image_table: post,
            is_last_slice,
        };
        proof {
            assert(table@.execution_tables.etable == slice_events(
                origin.execution_tables.etable,
                capacity,
                k,
            ));
            assert(table@.compilation_tables == compilation_at(origin, capacity, k));
            assert(table@.post_image_table == compilation_at(origin, capacity, k + 1));
            assert(table@.execution_tables == slice_tables(origin, capacity, k).execution_tables);
        }
        Some(Slice { table, capability: self.capability })
    }

    /// Hands out all slices that are left, in their order.
    pub fn collect(self) -> (r: Vec<Slice>)
        requires
            self.wf(),
        ensures
            r@.len() == self.spec_num_slices() - self.index(),
            forall|i: int|
                0 <= i < r@.len() ==> {
                    &&& (#[trigger] r@[i]).capability == self.spec_capability()
                    &&& r@[i].table@ == slice_tables(
                        self.origin(),
                        self.spec_capability() as nat,
                        (self.index() + i) as nat,
                    )
                    &&& r@[i].table.execution_tables.etable.spec_get_latest_eid() == 0
                },
    {
        let mut slices = self;
        let ghost first = self.index();
        let mut out: Vec<Slice> = Vec::new();
        loop
            invariant
                slices.wf(),
                slices.origin() == self.origin(),
                slices.spec_capability() == self.spec_capability(),
                slices.index() == first + out@.len(),
                slices.index() <= slices.spec_num_slices() || out@.len() == 0,
                first == self.index(),
                forall|i: int|
                    0 <= i < out@.len() ==> {
                        &&& (#[trigger] out@[i]).capability == self.spec_capability()
                        &&& out@[i].table@ == slice_tables(
                            self.origin(),
                            self.spec_capability() as nat,
                            (first + i) as nat,
                        )
                        &&& out@[i].table.execution_tables.etable.spec_get_latest_eid() == 0
                    },
            ensures
                slices.index() >= slices.spec_num_slices(),
                slices.index() == first + out@.len(),
                slices.index() <= slices.spec_num_slices() || out@.len() == 0,
            decreases slices.spec_num_slices() + 1 - slices.index(),
        {
            match slices.next() {
                Some(slice) => {
                    out.push(slice);
                },
                None => {
                    break ;
                },
            }
        }
        out
    }
}

/// The row that follows the last step of a table holds the state after that
/// step: what the state at the end of the steps says of execution id,
/// instruction, frame, stack and memory is what the row is filled with.
pub proof fn lemma_terminate_row_is_the_state_at_the_end(
    events: Seq<EventTableEntry>,
    init: InitializationState<u32>,
)
    requires
        events.len() > 0,
    ensures
        terminate_status(events) == ({
            let end = boundary_state(events, init, events.len() as int);
            Status {
                eid: end.eid,
                fid: end.fid,
                iid: end.iid,
                sp: end.sp,
                last_jump_eid: end.frame_id,
                allocated_memory_pages: end.initial_memory_pages,
            }
        }),
{
}

/// Slices chain: the compilation table that a slice ends in is the one
/// that the next slice starts from, state and initial memory alike.
pub proof fn lemma_slices_chain(origin: TablesView, capacity: nat, k: nat)
    ensures
        slice_tables(origin, capacity, k).post_image_table == slice_tables(
            origin,
            capacity,
            k + 1,
        ).compilation_tables,
        slice_tables(origin, capacity, 0).compilation_tables.initialization_state
            == origin.compilation_tables.initialization_state,
        slice_tables(origin, capacity, 0).compilation_tables.imtable
            == origin.compilation_tables.imtable,
{
}

/// Slicing depends on nothing but the compilation table, the execution
/// table and the capacity: the same three give the same slices.
pub proof fn lemma_slicing_is_deterministic(a: TablesView, b: TablesView, capacity: nat, k: nat)
    requires
        a.compilation_tables == b.compilation_tables,
        a.execution_tables == b.execution_tables,
    ensures
        slice_tables(a, capacity, k) == slice_tables(b, capacity, k),
{
    lemma_image_is_deterministic(a, b, capacity, k);
    lemma_image_is_deterministic(a, b, capacity, k + 1);
}

proof fn lemma_image_is_deterministic(a: TablesView, b: TablesView, capacity: nat, k: nat)
    requires
        a.compilation_tables == b.compilation_tables,
        a.execution_tables == b.execution_tables,
    ensures
        image_at(a, capacity, k) == image_at(b, capacity, k),
    decreases k,
{
    if k > 0 {
        lemma_image_is_deterministic(a, b, capacity, (k - 1) as nat);
    }
}

/// A slice that is not the first starts in the state that its first step
/// starts from: the state at the boundary is the state that was observed
/// there.
pub proof fn lemma_slice_starts_at_its_first_step(
    events: Seq<EventTableEntry>,
    init: InitializationState<u32>,
    i: int,
)
    requires
        0 < i < events.len(),
    ensures
        boundary_state(events, init, i).eid == events[i].eid,
        boundary_state(events, init, i).fid == events[i].inst.fid,
        boundary_state(events, init, i).iid == events[i].inst.iid,
        boundary_state(events, init, i).sp == events[i].sp,
        boundary_state(events, init, i).frame_id == events[i].last_jump_eid,
        boundary_state(events, init, i).initial_memory_pages == events[i].allocated_memory_pages,
{
}

/// The memory accesses of the first `k` slices, one slice after the other.
pub open spec fn joined_ops(
    mtable: Seq<MemoryTableEntry>,
    events: Seq<EventTableEntry>,
    capacity: nat,
    k: nat,
) -> Seq<MemoryTableEntry>
    decreases k,
{
    if k == 0 {
        Seq::empty()
    } else {
        joined_ops(mtable, events, capacity, (k - 1) as nat) + slice_ops(
            mtable,
            slice_events(events, capacity, (k - 1) as nat),
        )
    }
}

/// Accesses in the order of the steps whose last has an id below `lo` have
/// none with an id from `lo` on.
proof fn lemma_nothing_above(ops: Seq<MemoryTableEntry>, lo: u32, hi: u32)
    requires
        ops_in_step_order(ops),
        ops.len() > 0 ==> ops.last().eid < lo,
    ensures
        ops_within(ops, lo, hi) == Seq::<MemoryTableEntry>::empty(),
    decreases ops.len(),
{
    if ops.len() > 0 {
        let rest = ops.drop_last();
        assert forall|i: int, j: int| 0 <= i <= j < rest.len() implies (#[trigger] rest[i]).eid <= (
        #[trigger] rest[j]).eid by {
            assert(rest[i] == ops[i] && rest[j] == ops[j]);
        }
        if rest.len() > 0 {
            assert(rest.last() == ops[rest.len() - 1]);
            assert(ops[rest.len() - 1].eid <= ops[ops.len() - 1].eid);
        }
        lemma_nothing_above(rest, lo, hi);
    }
}

/// Accesses in the order of the steps fall apart at any execution id into
/// those up to it and those after it, in this order.
pub proof fn lemma_ops_split(ops: Seq<MemoryTableEntry>, lo: u32, mid: u32, hi: u32)
    requires
        ops_in_step_order(ops),
        lo <= mid + 1,
        mid <= hi,
        mid < u32::MAX,
    ensures
        ops_within(ops, lo, hi) == ops_within(ops, lo, mid) + ops_within(
            ops,
            (mid + 1) as u32,
            hi,
        ),
    decreases ops.len(),
{
    let next = (mid + 1) as u32;
    if ops.len() == 0 {
        assert(ops_within(ops, lo, hi) =~= ops_within(ops, lo, mid) + ops_within(ops, next, hi));
    } else {
        let rest = ops.drop_last();
        let last = ops.last();
        assert forall|i: int, j: int| 0 <= i <= j < rest.len() implies (#[trigger] rest[i]).eid <= (
        #[trigger] rest[j]).eid by {
            assert(rest[i] == ops[i] && rest[j] == ops[j]);
        }
        lemma_ops_split(rest, lo, mid, hi);
        if last.eid <= mid {
            if rest.len() > 0 {
                assert(rest.last() == ops[rest.len() - 1]);
                assert(ops[rest.len() - 1].eid <= ops[ops.len() - 1].eid);
            }
            lemma_nothing_above(rest, next, hi);
        }
        assert(ops_within(ops, lo, hi) =~= ops_within(ops, lo, mid) + ops_within(ops, next, hi));
    }
}

/// Slicing parts the memory table without losing, adding or moving an
/// entry: where the steps are numbered from 1 without a gap and the memory
/// table lists the accesses in the order of the steps, the memory tables of
/// the first `k` slices, joined, are the accesses of the steps before slice
/// `k`.
pub proof fn lemma_joined_ops(
    mtable: Seq<MemoryTableEntry>,
    events: Seq<EventTableEntry>,
    capacity: nat,
    k: nat,
)
    requires
        capacity > 0,
        eids_count_from(events, 1),
        ops_in_step_order(mtable),
    ensures
        joined_ops(mtable, events, capacity, k) == ops_within(
            mtable,
            1,
            start_of(events.len(), capacity, k) as u32,
        ),
    decreases k,
{
    let len = events.len();
    lemma_start_of(len, capacity, k);
    if len > 0 {
        assert(events[len - 1].eid == len);
    }
    if k == 0 {
        lemma_within_nothing(mtable);
    } else {
        let before = (k - 1) as nat;
        lemma_joined_ops(mtable, events, capacity, before);
        lemma_start_of(len, capacity, before);
        let from = start_of(len, capacity, before);
        let to = start_of(len, capacity, k);
        let chunk = slice_events(events, capacity, before);
        if from == to {
            assert(chunk.len() == 0);
            assert(joined_ops(mtable, events, capacity, k) =~= joined_ops(
                mtable,
                events,
                capacity,
                before,
            ));
        } else {
            assert(chunk.first() == events[from as int]);
            assert(chunk.last() == events[to - 1]);
            assert(chunk.first().eid == from + 1);
            assert(chunk.last().eid == to);
            lemma_ops_split(mtable, 1, from as u32, to as u32);
        }
    }
}

proof fn lemma_within_nothing(ops: Seq<MemoryTableEntry>)
    ensures
        ops_within(ops, 1, 0) == Seq::<MemoryTableEntry>::empty(),
    decreases ops.len(),
{
    if ops.len() > 0 {
        lemma_within_nothing(ops.drop_last());
    }
}

} // verus!
