//! The interpreter's side of a run: what goes in and comes out of the guest,
//! and the static call edges of a compiled module.

use vstd::prelude::*;
use crate::circuits::etable::assign::check_counters_fit;
use crate::circuits::etable::assign::counters_fit;
use crate::continuation::slice::boundary_state;
use crate::continuation::slice::image_after;
use crate::continuation::slice::update_init_memory_table;
use crate::continuation::slice::update_initialization_state;
use crate::runtime::all_memory_events;
use crate::runtime::tracer::lemma_tracer_tables;
use crate::specs::etable::EventTableEntry;
use crate::specs::tables::CompilationTableView;
use crate::runtime::tracer::Tracer;
use crate::runtime::tracer::TracerView;
use crate::specs::configure_table::ConfigureTable;
use crate::specs::imtable::InitMemoryTable;
use crate::specs::itable::InstructionTableEntry;
use crate::specs::jtable::StaticFrameEntry;
use crate::specs::jtable::ROOT_FRAME;
use crate::specs::state::InitializationState;
use crate::specs::tables::CompilationTable;
use crate::specs::tables::ElemEntry;
use crate::specs::tables::Tables;

verus! {

/// The values that crossed the guest's boundary during a run.
#[derive(Debug, PartialEq, Eq)]
pub struct WasmRuntimeIO {
    pub public_inputs_and_outputs: Vec<u64>,
    pub outputs: Vec<u64>,
}

impl WasmRuntimeIO {
    /// The record of a run that has not read or written anything yet.
    pub fn empty() -> (r: Self)
        ensures
            r.public_inputs_and_outputs@ == Seq::<u64>::empty(),
            r.outputs@ == Seq::<u64>::empty(),
    {
        Self { public_inputs_and_outputs: Vec::new(), outputs: Vec::new() }
    }
}

/// How many slots the value stack of the interpreter has.
pub const DEFAULT_VALUE_STACK_LIMIT: u32 = 4096;

/// What instantiating a module yields: its static tables, the function that
/// its entry export names, and whether it has a start function.
#[derive(Debug, PartialEq, Eq)]
pub struct InstantiatedModule {
    pub itable: Vec<InstructionTableEntry>,
    pub imtable: InitMemoryTable,
    pub elem_table: Vec<ElemEntry>,
    pub configure_table: ConfigureTable,
    pub idx_of_entry: u32,
    pub has_start: bool,
    pub phantom_functions: Vec<u32>,
}

/// A module that is ready to run: its tables and the tracer of the run.
pub struct CompiledImage {
    pub entry: String,
    pub tables: CompilationTable,
    pub tracer: Tracer,
}

/// What a run leaves behind.
#[derive(Debug, PartialEq, Eq)]
pub struct ExecutionResult {
    pub tables: Tables,
    /// The value that the entry function returned, if it returns one.
    pub result: Option<u64>,
    pub public_inputs_and_outputs: Vec<u64>,
    pub outputs: Vec<u64>,
}

/// The call of the entry function: it is made from nowhere, under the root
/// frame.
pub open spec fn entry_frame(idx_of_entry: u32) -> StaticFrameEntry {
    StaticFrameEntry {
        enable: true,
        frame_id: 0,
        next_frame_id: 0,
        callee_fid: idx_of_entry,
        fid: 0,
        iid: 0,
    }
}

/// The call of the start function, which always is function 0: it runs
/// first and returns to the first instruction of the entry function.
pub open spec fn start_frame(idx_of_entry: u32) -> StaticFrameEntry {
    StaticFrameEntry {
        enable: true,
        frame_id: 0,
        next_frame_id: 0,
        callee_fid: 0,
        fid: idx_of_entry,
        iid: 0,
    }
}

/// The static call edges of a module.
pub open spec fn static_frames(idx_of_entry: u32, has_start: bool) -> Seq<StaticFrameEntry> {
    if has_start {
        seq![entry_frame(idx_of_entry), start_frame(idx_of_entry)]
    } else {
        seq![entry_frame(idx_of_entry)]
    }
}

/// The function that runs first: the start function where there is one,
/// else the entry function.
pub open spec fn first_function(idx_of_entry: u32, has_start: bool) -> u32 {
    if has_start {
        0
    } else {
        idx_of_entry
    }
}

/// The state before the first step of a run. The stack is empty, and every
/// running index stands at 1.
pub open spec fn initial_state(
    fid_of_entry: u32,
    configure_table: ConfigureTable,
    continuation: bool,
) -> InitializationState<u32> {
    InitializationState {
        eid: 1,
        fid: fid_of_entry,
        iid: 0,
        frame_id: 0,
        sp: (DEFAULT_VALUE_STACK_LIMIT - 1) as u32,
        host_public_inputs: 1,
        context_in_index: 1,
        context_out_index: 1,
        external_host_call_call_index: 1,
        initial_memory_pages: configure_table.init_memory_pages,
        maximal_memory_pages: configure_table.maximal_memory_pages,
        jops: if continuation {
            Some(0u32)
        } else {
            None
        },
    }
}

/// The runtime that compiles modules for the interpreter. It holds no state
/// of its own.
#[derive(Clone, Copy, Debug, PartialEq, Eq, Structural, Hash)]
pub struct WasmiRuntime;

impl WasmiRuntime {
    pub fn new() -> (r: Self)
        ensures
            r == WasmiRuntime,
    {
        WasmiRuntime
    }

    /// Puts the tables of an instantiated module together and sets up the
    /// tracer of its run. With `continuation` the run may be proved in
    /// several slices, and the state keeps the running total of jump
    /// operations.
    pub fn compile(module: InstantiatedModule, entry: &str, continuation: bool) -> (r: CompiledImage)
        ensures
            r.entry@ == entry@,
            r.tables@.itable == module.itable@,
            r.tables@.imtable == module.imtable@,
            r.tables@.elem_table == module.elem_table@,
            r.tables@.configure_table == module.configure_table,
            r.tables@.static_jtable == static_frames(module.idx_of_entry, module.has_start),
            r.tables@.fid_of_entry == first_function(module.idx_of_entry, module.has_start),
            r.tables@.initialization_state == initial_state(
                first_function(module.idx_of_entry, module.has_start),
                module.configure_table,
                continuation,
            ),
            r.tracer.wf(),
            r.tracer@ == (TracerView {
                etable: Seq::empty(),
                jtable: Seq::empty(),
                frames: seq![ROOT_FRAME],
                masked_depth: 0,
                phantom_functions: module.phantom_functions@,
            }),
    {
        let idx_of_entry = module.idx_of_entry;
        let mut static_jtable: Vec<StaticFrameEntry> = Vec::new();
        static_jtable.push(
            StaticFrameEntry {
                enable: true,
                frame_id: 0,
                next_frame_id: 0,
                callee_fid: idx_of_entry,
                fid: 0,
                iid: 0,
            },
        );
        if module.has_start {
            static_jtable.push(
                StaticFrameEntry {
                    enable: true,
                    frame_id: 0,
                    next_frame_id: 0,
                    callee_fid: 0,
                    fid: idx_of_entry,
                    iid: 0,
                },
            );
        }
        let fid_of_entry = if module.has_start {
            0
        } else {
            idx_of_entry
        };
        let initialization_state = InitializationState {
            eid: 1,
            fid: fid_of_entry,
            iid: 0,
            frame_id: 0,
            sp: DEFAULT_VALUE_STACK_LIMIT - 1,
            host_public_inputs: 1,
            context_in_index: 1,
            context_out_index: 1,
            external_host_call_call_index: 1,
            initial_memory_pages: module.configure_table.init_memory_pages,
            maximal_memory_pages: module.configure_table.maximal_memory_pages,
            jops: if continuation {
                Some(0)
            } else {
                None
            },
        };
        proof {
            assert(static_jtable@ =~= static_frames(module.idx_of_entry, module.has_start));
        }
        CompiledImage {
            entry: entry.to_owned(),
            tables: CompilationTable {
                itable: module.itable,
                imtable: module.imtable,
                elem_table: module.elem_table,
                configure_table: module.configure_table,
                static_jtable,
                fid_of_entry,
                initialization_state,
            },
            tracer: Tracer::new(module.phantom_functions),
        }
    }
}

/// Why the tables of a run cannot be put together.
#[derive(Clone, Copy, Debug, PartialEq, Eq, Structural, Hash)]
pub enum ExecutionError {
    /// A running index of the state would leave its 32 bits by the end of
    /// the run.
    StateOverflow,
}

/// The compilation table as it stands at the end of a run: the static
/// tables as they were, the initial memory with what the run wrote, and the
/// state after the last step.
pub open spec fn image_at_end(tables: CompilationTableView, events: Seq<EventTableEntry>) -> CompilationTableView {
    CompilationTableView {
        itable: tables.itable,
        imtable: image_after(tables.imtable, all_memory_events(events)),
        elem_table: tables.elem_table,
        configure_table: tables.configure_table,
        static_jtable: tables.static_jtable,
        fid_of_entry: tables.fid_of_entry,
        initialization_state: boundary_state(
            events,
            tables.initialization_state,
            events.len() as int,
        ),
    }
}

impl CompiledImage {
    /// Puts together what a run that has ended leaves behind: the tables of
    /// the module, the tables that the tracer recorded, the image as the run
    /// leaves it, and what crossed the guest's boundary.
    ///
    /// The image at the end holds the memory with every value that the run
    /// wrote and the state after the last step. Fails where a running index
    /// of that state would not fit its 32 bits.
    pub fn run(self, result: Option<u64>, wasm_io: WasmRuntimeIO) -> (r: Result<
        ExecutionResult,
        ExecutionError,
    >)
        requires
            self.tracer.wf(),
        ensures
            r is Ok <==> counters_fit(self.tables.initialization_state, self.tracer@.etable),
            r matches Ok(run) ==> {
                &&& run.tables@.compilation_tables == self.tables@
                &&& run.tables@.post_image_table == image_at_end(self.tables@, self.tracer@.etable)
                &&& run.tables@.execution_tables.etable == self.tracer@.etable
                &&& run.tables@.execution_tables.jtable == self.tracer@.jtable
                &&& run.tables@.execution_tables.mtable == all_memory_events(self.tracer@.etable)
                &&& run.tables.execution_tables.etable.spec_get_latest_eid()
                    == self.tracer@.etable.len()
                &&& run.tables.is_last_slice
                &&& run.result == result
                &&& run.public_inputs_and_outputs@ == wasm_io.public_inputs_and_outputs@
                &&& run.outputs@ == wasm_io.outputs@
            },
    {
        proof {
            lemma_tracer_tables(self.tracer);
        }
        let init = self.tables.initialization_state;
        let execution_tables = self.tracer.finish();
        let events = execution_tables.etable.entries();
        if !check_counters_fit(&init, events) {
            return Err(ExecutionError::StateOverflow);
        }
        let post_state = update_initialization_state(events, &init, &init, 0, events.len());
        let mut post_imtable = self.tables.imtable.clone();
        update_init_memory_table(&mut post_imtable, execution_tables.mtable.entries());
        let post_image_table = CompilationTable {
            itable: self.tables.itable.clone(),
            imtable: post_imtable,
            elem_table: self.tables.elem_table.clone(),
            configure_table: self.tables.configure_table,
            static_jtable: self.tables.static_jtable.clone(),
            fid_of_entry: self.tables.fid_of_entry,
            initialization_state: post_state,
        };
        Ok(
            ExecutionResult {
                tables: Tables {
                    compilation_tables: self.tables,
                    execution_tables,
                    post_image_table,
                    is_last_slice: true,
                },
                result,
                public_inputs_and_outputs: wasm_io.public_inputs_and_outputs,
                outputs: wasm_io.outputs,
            },
        )
    }
}

} // verus!
