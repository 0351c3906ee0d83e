//! The tracer: it turns the steps that an interpreter reports into the
//! event table and the jump table of the run.
//!
//! The interpreter executes; the tracer decides what is recorded. It hands
//! out execution ids, keeps the stack of open frames, links every call to
//! the frame it was made from, and leaves out what happens inside phantom
//! functions.

use vstd::prelude::*;
use crate::circuits::etable::assign::counters_fit;
use crate::continuation::slice::eids_count_from;
use crate::continuation::slice::sliceable;
use crate::runtime::all_memory_events;
use crate::runtime::check_in_range;
use crate::runtime::in_range;
use crate::runtime::memory_table_of;
use crate::specs::etable::end_fits;
use crate::specs::etable::EventTable;
use crate::specs::etable::EventTableEntry;
use crate::specs::itable::InstructionTableEntry;
use crate::specs::jtable::consistent;
use crate::specs::jtable::resolves;
use crate::specs::jtable::JumpTable;
use crate::specs::jtable::JumpTableEntry;
use crate::specs::jtable::ROOT_FRAME;
use crate::specs::step::agrees;
use crate::specs::step::spec_agrees;
use crate::specs::step::StepInfo;
use crate::specs::tables::ExecutionTable;
use crate::specs::tables::TablesView;

verus! {

/// What the interpreter reports of one step it executed.
#[derive(Clone, Copy, Debug, PartialEq, Eq, Structural, Hash)]
pub struct Observation {
    /// The stack pointer before the step.
    pub sp: u32,
    /// The size of the memory before the step.
    pub allocated_memory_pages: u32,
    pub inst: InstructionTableEntry,
    pub step_info: StepInfo,
    /// For a call, the instruction that the callee returns to.
    pub return_to: Option<InstructionTableEntry>,
}

/// A report that cannot belong to a run.
#[derive(Clone, Copy, Debug, PartialEq, Eq, Structural, Hash)]
pub enum TraceError {
    /// All execution ids are used up.
    EidExhausted,
    /// The observed values are not those of a step of the instruction.
    OpcodeMismatch,
    /// The step reaches beyond the last stack slot, or leaves the stack
    /// pointer beyond it.
    StackOutOfRange,
    /// A call was reported without the instruction to return to.
    MissingReturnAddress,
    /// A return was reported after the entry function had returned.
    NoOpenFrame,
    /// Calls inside a phantom function are nested deeper than can be counted.
    TooDeep,
}

/// Whether `fid` is among `fids`.
pub open spec fn spec_contains(fids: Seq<u32>, fid: u32) -> bool {
    exists|i: int| 0 <= i < fids.len() && fids[i] == fid
}

fn contains(fids: &Vec<u32>, fid: u32) -> (r: bool)
    ensures
        r == spec_contains(fids@, fid),
{
    let mut i: usize = 0;
    while i < fids.len()
        invariant
            i <= fids.len(),
            forall|j: int| 0 <= j < i ==> fids@[j] != fid,
        decreases fids.len() - i,
    {
        if fids[i] == fid {
            return true;
        }
        i += 1;
    }
    false
}

/// The state of a tracer, as a value.
pub ghost struct TracerView {
    pub etable: Seq<EventTableEntry>,
    pub jtable: Seq<JumpTableEntry>,
    /// The open frames, the root first: each is named by the execution id
    /// of the call that opened it.
    pub frames: Seq<u32>,
    /// How many frames are open inside a phantom function, that of the
    /// phantom function included; 0 outside.
    pub masked_depth: nat,
    pub phantom_functions: Seq<u32>,
}

/// Whether a recorded step is one that the tables can hold: the observed
/// values fit the instruction, the stack slots it touches exist, and where
/// it returns, so does the slot that the stack pointer is left at.
pub open spec fn recordable(entry: EventTableEntry) -> bool {
    &&& spec_agrees(entry.inst.opcode, entry.step_info)
    &&& in_range(entry)
    &&& entry.step_info matches StepInfo::Return { drop, .. } ==> entry.sp + drop <= u32::MAX
}

/// Whether the tables of a tracer are those of a run.
pub open spec fn tables_wf(view: TracerView) -> bool {
    &&& view.etable.len() < u32::MAX
    &&& eids_count_from(view.etable, 1)
    &&& forall|i: int| 0 <= i < view.etable.len() ==> recordable(#[trigger] view.etable[i])
    &&& consistent(view.jtable)
    &&& forall|i: int|
        0 <= i < view.jtable.len() ==> (#[trigger] view.jtable[i]).eid <= view.etable.len()
    &&& view.frames.len() == 0 ==> view.masked_depth == 0
    &&& forall|i: int|
        0 <= i < view.frames.len() ==> #[trigger] frame_is_known(view.jtable, view.frames[i])
}

/// Whether a frame is the root or was opened by a call of the jump table.
pub open spec fn frame_is_known(jtable: Seq<JumpTableEntry>, frame: u32) -> bool {
    frame == ROOT_FRAME || exists|j: int| 0 <= j < jtable.len() && (#[trigger] jtable[j]).eid == frame
}

/// The entry that a step is recorded as.
pub open spec fn recorded(view: TracerView, observation: Observation) -> EventTableEntry {
    EventTableEntry {
        eid: (view.etable.len() + 1) as u32,
        sp: observation.sp,
        allocated_memory_pages: observation.allocated_memory_pages,
        last_jump_eid: view.frames.last(),
        inst: observation.inst,
        step_info: observation.step_info,
    }
}

/// Why a step cannot be recorded, if it cannot.
pub open spec fn refusal(view: TracerView, observation: Observation) -> Option<TraceError> {
    let entry = recorded(view, observation);
    if view.frames.len() == 0 {
        Some(TraceError::NoOpenFrame)
    } else if view.etable.len() + 1 >= u32::MAX {
        Some(TraceError::EidExhausted)
    } else if !spec_agrees(observation.inst.opcode, observation.step_info) {
        Some(TraceError::OpcodeMismatch)
    } else if !in_range(entry) || (entry.step_info matches StepInfo::Return { drop, .. }
        && entry.sp + drop > u32::MAX) {
        Some(TraceError::StackOutOfRange)
    } else if observation.step_info.spec_callee() is Some && observation.return_to is None {
        Some(TraceError::MissingReturnAddress)
    } else {
        None
    }
}

/// The state after a step that is recorded.
pub open spec fn after_recorded(view: TracerView, observation: Observation) -> TracerView {
    let entry = recorded(view, observation);
    match observation.step_info.spec_callee() {
        Some(callee) => TracerView {
            etable: view.etable.push(entry),
            jtable: view.jtable.push(
                JumpTableEntry {
                    eid: entry.eid,
                    last_jump_eid: entry.last_jump_eid,
                    callee_fid: callee,
                    inst: observation.return_to->0,
                },
            ),
            frames: view.frames.push(entry.eid),
            masked_depth: if spec_contains(view.phantom_functions, callee) {
                1
            } else {
                0
            },
            phantom_functions: view.phantom_functions,
        },
        None => TracerView {
            etable: view.etable.push(entry),
            jtable: view.jtable,
            frames: if observation.step_info is Return {
                view.frames.drop_last()
            } else {
                view.frames
            },
            masked_depth: 0,
            phantom_functions: view.phantom_functions,
        },
    }
}

/// What a step does to the state of the tracer.
///
/// Outside a phantom function every step is recorded: it gets the next
/// execution id and the frame it runs in; a call adds an entry to the jump
/// table and opens a frame, a return closes one. Inside a phantom function
/// nothing is recorded but the return that leaves it; calls and returns
/// further in are only counted.
pub open spec fn after_step(view: TracerView, observation: Observation) -> Result<
    TracerView,
    TraceError,
> {
    if view.masked_depth > 0 && observation.step_info.spec_callee() is Some {
        if view.masked_depth >= usize::MAX {
            Err(TraceError::TooDeep)
        } else {
            Ok(TracerView { masked_depth: view.masked_depth + 1, ..view })
        }
    } else if view.masked_depth > 1 && observation.step_info is Return {
        Ok(TracerView { masked_depth: (view.masked_depth - 1) as nat, ..view })
    } else if view.masked_depth > 0 && !(observation.step_info is Return) {
        Ok(view)
    } else {
        match refusal(view, observation) {
            Some(error) => Err(error),
            None => Ok(after_recorded(view, observation)),
        }
    }
}

/// Whether a step is recorded: it is accepted and adds an entry to the event
/// table.
pub open spec fn is_recorded(view: TracerView, observation: Observation) -> bool {
    after_step(view, observation) matches Ok(next) && next.etable.len() == view.etable.len() + 1
}

/// A step leaves the tables those of a run: the execution ids still count
/// up from 1 without a gap, and the jump table is still a tree of frames.
pub proof fn lemma_step_keeps_tables(view: TracerView, observation: Observation)
    requires
        tables_wf(view),
    ensures
        after_step(view, observation) matches Ok(next) ==> tables_wf(next),
{
    if let Ok(next) = after_step(view, observation) {
        if next.etable.len() == view.etable.len() + 1 {
            let entry = recorded(view, observation);
            assert(next.etable == view.etable.push(entry));
            assert forall|i: int| 0 <= i < next.etable.len() implies recordable(
                #[trigger] next.etable[i],
            ) && next.etable[i].eid == 1 + i by {
                if i < view.etable.len() {
                    assert(next.etable[i] == view.etable[i]);
                }
            }
            assert(frame_is_known(view.jtable, view.frames.last()));
            match observation.step_info.spec_callee() {
                Some(callee) => {
                    let jump = JumpTableEntry {
                        eid: entry.eid,
                        last_jump_eid: entry.last_jump_eid,
                        callee_fid: callee,
                        inst: observation.return_to->0,
                    };
                    assert(next.jtable == view.jtable.push(jump));
                    lemma_push_keeps_consistent(view.jtable, jump);
                    assert forall|i: int| 0 <= i < next.frames.len() implies #[trigger] frame_is_known(
                        next.jtable,
                        next.frames[i],
                    ) by {
                        if i < view.frames.len() {
                            assert(frame_is_known(view.jtable, view.frames[i]));
                            if view.frames[i] != ROOT_FRAME {
                                let j = choose|j: int|
                                    0 <= j < view.jtable.len() && (#[trigger] view.jtable[j]).eid
                                        == view.frames[i];
                                assert(next.jtable[j].eid == next.frames[i]);
                            }
                        } else {
                            assert(next.jtable[view.jtable.len() as int].eid == next.frames[i]);
                        }
                    }
                    assert forall|i: int| 0 <= i < next.jtable.len() implies (
                    #[trigger] next.jtable[i]).eid <= next.etable.len() by {
                        if i < view.jtable.len() {
                            assert(next.jtable[i] == view.jtable[i]);
                        }
                    }
                },
                None => {
                    assert forall|i: int| 0 <= i < next.frames.len() implies #[trigger] frame_is_known(
                        next.jtable,
                        next.frames[i],
                    ) by {
                        assert(next.frames[i] == view.frames[i]);
                        assert(frame_is_known(view.jtable, view.frames[i]));
                    }
                },
            }
        } else {
            assert(next.etable == view.etable);
            assert(next.jtable == view.jtable);
            assert(next.frames == view.frames);
        }
    }
}

/// A call from a known frame, with an execution id above all earlier ones,
/// leaves the jump table consistent.
pub proof fn lemma_push_keeps_consistent(jtable: Seq<JumpTableEntry>, jump: JumpTableEntry)
    requires
        consistent(jtable),
        frame_is_known(jtable, jump.last_jump_eid),
        jump.eid != ROOT_FRAME,
        forall|i: int| 0 <= i < jtable.len() ==> (#[trigger] jtable[i]).eid < jump.eid,
    ensures
        consistent(jtable.push(jump)),
{
    let next = jtable.push(jump);
    let n = jtable.len() as int;
    assert forall|i: int, j: int| 0 <= i < j < next.len() implies (#[trigger] next[i]).eid < (
    #[trigger] next[j]).eid by {
        if j < n {
            assert(jtable[i].eid < jtable[j].eid);
        } else {
            assert(jtable[i].eid < jump.eid);
        }
    }
    assert forall|i: int| 0 <= i < next.len() implies #[trigger] resolves(next, i) by {
        if i < n {
            assert(resolves(jtable, i));
            if jtable[i].last_jump_eid != ROOT_FRAME {
                let w = choose|w: int|
                    {
                        &&& 0 <= w < i
                        &&& #[trigger] jtable[w].eid == jtable[i].last_jump_eid
                        &&& forall|m: int|
                            0 <= m < i && #[trigger] jtable[m].eid == jtable[i].last_jump_eid ==> m
                                == w
                    };
                assert(next[w].eid == next[i].last_jump_eid);
                assert forall|m: int|
                    0 <= m < i && #[trigger] next[m].eid == next[i].last_jump_eid implies m == w by {
                    assert(jtable[m].eid == jtable[i].last_jump_eid);
                }
            }
        } else {
            if jump.last_jump_eid != ROOT_FRAME {
                let w = choose|w: int|
                    0 <= w < jtable.len() && (#[trigger] jtable[w]).eid == jump.last_jump_eid;
                assert(next[w].eid == next[i].last_jump_eid);
                assert forall|m: int|
                    0 <= m < i && #[trigger] next[m].eid == next[i].last_jump_eid implies m == w by {
                    if m < w {
                        assert(jtable[m].eid < jtable[w].eid);
                    } else if m > w {
                        assert(jtable[w].eid < jtable[m].eid);
                    }
                }
            }
        }
    }
}

/// The tracer of one run.
pub struct Tracer {
    etable: EventTable,
    jtable: JumpTable,
    last_jump_eid: Vec<u32>,
    masked_depth: usize,
    phantom_functions: Vec<u32>,
}

impl View for Tracer {
    type V = TracerView;

    closed spec fn view(&self) -> TracerView {
        TracerView {
            etable: self.etable@,
            jtable: self.jtable@,
            frames: self.last_jump_eid@,
            masked_depth: self.masked_depth as nat,
            phantom_functions: self.phantom_functions@,
        }
    }
}

impl Tracer {
    /// Whether the tables are those of a run and the tracer's own count of
    /// execution ids agrees with them.
    pub closed spec fn wf(&self) -> bool {
        &&& tables_wf(self@)
        &&& self.etable.spec_get_latest_eid() == self.etable@.len()
    }

    /// A tracer before the first step: nothing is recorded, and the frame of
    /// the entry function is open under the root.
    pub fn new(phantom_functions: Vec<u32>) -> (r: Self)
        ensures
            r.wf(),
            r@ == (TracerView {
                etable: Seq::empty(),
                jtable: Seq::empty(),
                frames: seq![ROOT_FRAME],
                masked_depth: 0,
                phantom_functions: phantom_functions@,
            }),
    {
        let mut last_jump_eid: Vec<u32> = Vec::new();
        last_jump_eid.push(ROOT_FRAME);
        let tracer = Tracer {
            etable: EventTable::new(Vec::new()),
            jtable: JumpTable::new(Vec::new()),
            last_jump_eid,
            masked_depth: 0,
            phantom_functions,
        };
        proof {
            assert(tracer@.frames =~= seq![ROOT_FRAME]);
            assert(frame_is_known(tracer@.jtable, tracer@.frames[0]));
        }
        tracer
    }

    /// The execution id that was handed out last; 0 before the first step.
    pub fn eid(&self) -> (r: u32)
        requires
            self.wf(),
        ensures
            r == self@.etable.len(),
    {
        self.etable.get_latest_eid()
    }

    /// The frame that the next step runs in, if one is open.
    pub fn last_jump_eid(&self) -> (r: Option<u32>)
        ensures
            r == if self@.frames.len() > 0 {
                Some(self@.frames.last())
            } else {
                None
            },
    {
        let n = self.last_jump_eid.len();
        if n > 0 {
            Some(self.last_jump_eid[n - 1])
        } else {
            None
        }
    }

    pub fn etable(&self) -> (r: &EventTable)
        ensures
            r@ == self@.etable,
    {
        &self.etable
    }

    pub fn jtable(&self) -> (r: &JumpTable)
        ensures
            r@ == self@.jtable,
    {
        &self.jtable
    }

    /// Ends the run and hands out what was recorded, the memory table
    /// derived from the steps.
    pub fn finish(self) -> (r: ExecutionTable)
        requires
            self.wf(),
        ensures
            r@.etable == self@.etable,
            r@.jtable == self@.jtable,
            r@.mtable == all_memory_events(self@.etable),
            r.etable.spec_get_latest_eid() == self@.etable.len(),
    {
        let mtable = memory_table_of(self.etable.entries());
        ExecutionTable { etable: self.etable, mtable, jtable: self.jtable }
    }

    /// Takes in the report of one step. Returns the execution id under which
    /// the step was recorded, or `None` where it was left out. A report that
    /// is refused changes nothing.
    pub fn step(&mut self, observation: Observation) -> (r: Result<Option<u32>, TraceError>)
        requires
            old(self).wf(),
        ensures
            final(self).wf(),
            match after_step(old(self)@, observation) {
                Ok(next) => final(self)@ == next && r == Ok::<Option<u32>, TraceError>(
                    if is_recorded(old(self)@, observation) {
                        Some(next.etable.len() as u32)
                    } else {
                        None
                    },
                ),
                Err(error) => final(self)@ == old(self)@ && r == Err::<Option<u32>, TraceError>(
                    error,
                ),
            },
    {
        proof {
            lemma_step_keeps_tables(self@, observation);
        }
        let callee = observation.step_info.callee();
        let is_return = match observation.step_info {
            StepInfo::Return { .. } => true,
            _ => false,
        };
        if self.masked_depth > 0 && callee.is_some() {
            if self.masked_depth == usize::MAX {
                return Err(TraceError::TooDeep);
            }
            self.masked_depth = self.masked_depth + 1;
            return Ok(None);
        }
        if self.masked_depth > 1 && is_return {
            self.masked_depth = self.masked_depth - 1;
            return Ok(None);
        }
        if self.masked_depth > 0 && !is_return {
            return Ok(None);
        }
        let frames = self.last_jump_eid.len();
        if frames == 0 {
            return Err(TraceError::NoOpenFrame);
        }
        let frame = self.last_jump_eid[frames - 1];
        let latest = self.etable.get_latest_eid();
        if latest >= u32::MAX - 1 {
            return Err(TraceError::EidExhausted);
        }
        if !agrees(observation.inst.opcode, observation.step_info) {
            return Err(TraceError::OpcodeMismatch);
        }
        let entry = EventTableEntry {
            eid: latest + 1,
            sp: observation.sp,
            allocated_memory_pages: observation.allocated_memory_pages,
            last_jump_eid: frame,
            inst: observation.inst,
            step_info: observation.step_info,
        };
        if !check_in_range(&entry) {
            return Err(TraceError::StackOutOfRange);
        }
        if let StepInfo::Return { drop, .. } = observation.step_info {
            if drop > u32::MAX - observation.sp {
                return Err(TraceError::StackOutOfRange);
            }
        }
        match callee {
            Some(callee_fid) => {
                let return_to = match observation.return_to {
                    Some(inst) => inst,
                    None => {
                        return Err(TraceError::MissingReturnAddress);
                    },
                };
                let eid = self.etable.push(
                    observation.sp,
                    observation.allocated_memory_pages,
                    frame,
                    observation.inst,
                    observation.step_info,
                );
                self.jtable.push(
                    JumpTableEntry { eid, last_jump_eid: frame, callee_fid, inst: return_to },
                );
                self.last_jump_eid.push(eid);
                self.masked_depth = if contains(&self.phantom_functions, callee_fid) {
                    1
                } else {
                    0
                };
                Ok(Some(eid))
            },
            None => {
                let eid = self.etable.push(
                    observation.sp,
                    observation.allocated_memory_pages,
                    frame,
                    observation.inst,
                    observation.step_info,
                );
                if is_return {
                    self.last_jump_eid.pop();
                }
                self.masked_depth = 0;
                Ok(Some(eid))
            },
        }
    }
}

/// In the tables of a tracer the execution ids count up from 1 without a
/// gap, and the calls form a tree of frames under the root.
pub proof fn lemma_tracer_tables(tracer: Tracer)
    requires
        tracer.wf(),
    ensures
        eids_count_from(tracer@.etable, 1),
        consistent(tracer@.jtable),
        forall|i: int| 0 <= i < tracer@.etable.len() ==> recordable(#[trigger] tracer@.etable[i]),
        end_fits(tracer@.etable),
{
    let events = tracer@.etable;
    if events.len() > 0 {
        assert(events.last() == events[events.len() - 1]);
        assert(recordable(events.last()));
    }
}

/// What a tracer recorded can be cut into slices of any capacity that is
/// not zero, as long as the running indices of the state that the run
/// started from leave room for its steps.
pub proof fn lemma_run_is_sliceable(tracer: TracerView, origin: TablesView, capacity: nat)
    requires
        tables_wf(tracer),
        origin.execution_tables.etable == tracer.etable,
        capacity > 0,
        counters_fit(origin.compilation_tables.initialization_state, tracer.etable),
    ensures
        sliceable(origin, capacity),
{
    let events = tracer.etable;
    if events.len() > 0 {
        let last = events.last();
        assert(last == events[events.len() - 1]);
        assert(recordable(last));
    }
}

/// What a sequence of steps does to the state of the tracer, step after
/// step; the first refusal ends it.
pub open spec fn after_steps(view: TracerView, observations: Seq<Observation>) -> Result<
    TracerView,
    TraceError,
>
    decreases observations.len(),
{
    if observations.len() == 0 {
        Ok(view)
    } else {
        match after_steps(view, observations.drop_last()) {
            Ok(before) => after_step(before, observations.last()),
            Err(error) => Err(error),
        }
    }
}

/// Whether the steps were accepted and left the tracer inside a phantom
/// function.
pub open spec fn is_inside(outcome: Result<TracerView, TraceError>) -> bool {
    outcome matches Ok(at) && at.masked_depth > 0
}

/// Whether the tracer is inside a phantom function after each of the steps,
/// the last included.
pub open spec fn stays_inside(view: TracerView, observations: Seq<Observation>) -> bool {
    forall|n: int|
        0 <= n <= observations.len() ==> is_inside(
            #[trigger] after_steps(view, observations.take(n)),
        )
}

/// Steps inside a phantom function leave no trace: however many they are,
/// and whatever they call and return from further in, the event table, the
/// jump table and the open frames stay as the call of the phantom function
/// left them.
pub proof fn lemma_inside_phantom_nothing_is_recorded(
    view: TracerView,
    observations: Seq<Observation>,
)
    requires
        stays_inside(view, observations),
    ensures
        after_steps(view, observations) matches Ok(end) && end.etable == view.etable && end.jtable
            == view.jtable && end.frames == view.frames && end.phantom_functions
            == view.phantom_functions,
    decreases observations.len(),
{
    assert(observations.take(observations.len() as int) =~= observations);
    assert(is_inside(after_steps(view, observations.take(observations.len() as int))));
    if observations.len() > 0 {
        let rest = observations.drop_last();
        assert forall|n: int| 0 <= n <= rest.len() implies is_inside(
            #[trigger] after_steps(view, rest.take(n)),
        ) by {
            assert(rest.take(n) =~= observations.take(n));
            assert(is_inside(after_steps(view, observations.take(n))));
        }
        lemma_inside_phantom_nothing_is_recorded(view, rest);
        assert(rest.take(rest.len() as int) =~= rest);
        assert(is_inside(after_steps(view, rest.take(rest.len() as int))));
    } else {
        assert(observations.take(0) =~= observations);
    }
}

/// A call of a phantom function is recorded as one step and one entry of
/// the jump table, and the return that leaves the function as one more
/// step. Whatever happens inside, and however long it takes, the tables
/// grow by just that.
pub proof fn lemma_phantom_call_leaves_call_and_return(
    view: TracerView,
    call: Observation,
    inside: Seq<Observation>,
    leave: Observation,
)
    requires
        view.masked_depth == 0,
        refusal(view, call) is None,
        call.step_info.spec_callee() matches Some(callee) && spec_contains(
            view.phantom_functions,
            callee,
        ),
        stays_inside(after_recorded(view, call), inside),
        after_steps(after_recorded(view, call), inside) matches Ok(at) && at.masked_depth == 1,
        leave.step_info is Return,
        refusal(after_recorded(view, call), leave) is None,
    ensures
        after_steps(view, seq![call] + inside + seq![leave]) matches Ok(end) && {
            &&& end.etable == view.etable.push(recorded(view, call)).push(
                recorded(after_recorded(view, call), leave),
            )
            &&& end.jtable == view.jtable.push(
                JumpTableEntry {
                    eid: (view.etable.len() + 1) as u32,
                    last_jump_eid: view.frames.last(),
                    callee_fid: call.step_info.spec_callee()->0,
                    inst: call.return_to->0,
                },
            )
            &&& end.frames == view.frames
            &&& end.masked_depth == 0
        },
{
    let called = after_recorded(view, call);
    lemma_inside_phantom_nothing_is_recorded(called, inside);
    let at = after_steps(called, inside)->Ok_0;
    assert(after_step(view, call) == Ok::<TracerView, TraceError>(called));
    lemma_after_steps_add(view, seq![call], inside);
    assert(seq![call].drop_last() =~= Seq::<Observation>::empty());
    assert(seq![call].last() == call);
    assert(after_steps(view, Seq::<Observation>::empty()) == Ok::<TracerView, TraceError>(view));
    assert(after_steps(view, seq![call]) == after_step(view, call));
    let all = seq![call] + inside + seq![leave];
    assert(all.drop_last() =~= seq![call] + inside);
    assert(all.last() == leave);
    assert(refusal(at, leave) == refusal(called, leave));
    assert(recorded(at, leave) == recorded(called, leave));
    assert(called.frames.drop_last() =~= view.frames);
}

/// Steps put one after the other do what the second do to the state that
/// the first leave.
pub proof fn lemma_after_steps_add(view: TracerView, a: Seq<Observation>, b: Seq<Observation>)
    ensures
        after_steps(view, a + b) == match after_steps(view, a) {
            Ok(between) => after_steps(between, b),
            Err(error) => Err(error),
        },
    decreases b.len(),
{
    if b.len() == 0 {
        assert(a + b =~= a);
    } else {
        assert((a + b).drop_last() =~= a + b.drop_last());
        assert((a + b).last() == b.last());
        lemma_after_steps_add(view, a, b.drop_last());
    }
}

} // verus!
