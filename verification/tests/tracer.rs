use zkwasm::runtime::tracer::Observation;
use zkwasm::runtime::tracer::TraceError;
use zkwasm::runtime::tracer::Tracer;
use zkwasm::runtime::wasmi_interpreter::CompiledImage;
use zkwasm::runtime::wasmi_interpreter::ExecutionError;
use zkwasm::runtime::wasmi_interpreter::InstantiatedModule;
use zkwasm::runtime::wasmi_interpreter::WasmRuntimeIO;
use zkwasm::runtime::wasmi_interpreter::WasmiRuntime;
use zkwasm::runtime::wasmi_interpreter::DEFAULT_VALUE_STACK_LIMIT;
use zkwasm::specs::configure_table::ConfigureTable;
use zkwasm::specs::imtable::InitMemoryTable;
use zkwasm::specs::imtable::InitMemoryTableEntry;
use zkwasm::specs::itable::InstructionTableEntry;
use zkwasm::specs::itable::Opcode;
use zkwasm::specs::jtable::JumpTableEntry;
use zkwasm::specs::jtable::StaticFrameEntry;
use zkwasm::specs::mtable::LocationType;
use zkwasm::specs::mtable::ValueType;
use zkwasm::specs::mtable::VarType;
use zkwasm::specs::state::InitializationState;
use zkwasm::specs::step::agrees;
use zkwasm::specs::step::StepInfo;

fn inst(fid: u32, iid: u32, opcode: Opcode) -> InstructionTableEntry {
    InstructionTableEntry { fid, iid, opcode }
}

fn observe(sp: u32, inst: InstructionTableEntry, step_info: StepInfo) -> Observation {
    Observation { sp, allocated_memory_pages: 1, inst, step_info, return_to: None }
}

fn push_const(sp: u32, fid: u32, iid: u32, value: u32) -> Observation {
    observe(
        sp,
        inst(fid, iid, Opcode::Const { vtype: VarType::I32, value: value as u64 }),
        StepInfo::I32Const { value },
    )
}

fn drop_top(sp: u32, fid: u32, iid: u32) -> Observation {
    observe(sp, inst(fid, iid, Opcode::Drop), StepInfo::Drop)
}

fn ret(sp: u32, fid: u32, iid: u32) -> Observation {
    observe(
        sp,
        inst(fid, iid, Opcode::Return { drop: 0, keep: None }),
        StepInfo::Return { drop: 0, keep: None },
    )
}

fn call(sp: u32, fid: u32, iid: u32, callee: u32) -> Observation {
    Observation {
        sp,
        allocated_memory_pages: 1,
        inst: inst(fid, iid, Opcode::Call { index: callee }),
        step_info: StepInfo::Call { index: callee },
        return_to: Some(inst(fid, iid + 1, Opcode::Drop)),
    }
}

#[test]
fn wasmi_runtime_can_be_made() {
    let _runtime = WasmiRuntime::new();
}

#[test]
fn runtime_io_starts_empty() {
    let io = WasmRuntimeIO::empty();
    assert!(io.public_inputs_and_outputs.is_empty());
    assert!(io.outputs.is_empty());
}

#[test]
fn tracer_starts_under_the_root_frame() {
    let tracer = Tracer::new(vec![]);
    assert_eq!(tracer.eid(), 0);
    assert_eq!(tracer.last_jump_eid(), Some(0));
    assert!(tracer.etable().entries().is_empty());
    assert!(tracer.jtable().entries().is_empty());
}

#[test]
fn eids_count_up_from_one_without_gaps() {
    let mut tracer = Tracer::new(vec![]);
    for i in 0..20u32 {
        let sp = 100 - i;
        assert_eq!(tracer.step(push_const(sp, 0, i, i)), Ok(Some(i + 1)));
        assert_eq!(tracer.eid(), i + 1);
    }
    let eids: Vec<u32> = tracer.etable().entries().iter().map(|e| e.eid).collect();
    assert_eq!(eids, (1..=20).collect::<Vec<u32>>());
    assert_eq!(tracer.etable().get_latest_eid(), 20);
}

#[test]
fn call_opens_a_frame_and_return_closes_it() {
    let mut tracer = Tracer::new(vec![]);
    assert_eq!(tracer.step(push_const(100, 0, 0, 1)), Ok(Some(1)));
    assert_eq!(tracer.step(call(99, 0, 1, 5)), Ok(Some(2)));
    assert_eq!(tracer.last_jump_eid(), Some(2));
    assert_eq!(tracer.step(push_const(99, 5, 0, 1)), Ok(Some(3)));
    assert_eq!(tracer.step(call(98, 5, 1, 6)), Ok(Some(4)));
    assert_eq!(tracer.last_jump_eid(), Some(4));
    assert_eq!(tracer.step(ret(98, 6, 0)), Ok(Some(5)));
    assert_eq!(tracer.last_jump_eid(), Some(2));
    assert_eq!(tracer.step(ret(98, 5, 2)), Ok(Some(6)));
    assert_eq!(tracer.last_jump_eid(), Some(0));

    let frames: Vec<u32> = tracer.etable().entries().iter().map(|e| e.last_jump_eid).collect();
    assert_eq!(frames, vec![0, 0, 2, 2, 4, 2]);
    assert_eq!(
        tracer.jtable().entries(),
        &vec![
            JumpTableEntry { eid: 2, last_jump_eid: 0, callee_fid: 5, inst: inst(0, 2, Opcode::Drop) },
            JumpTableEntry { eid: 4, last_jump_eid: 2, callee_fid: 6, inst: inst(5, 2, Opcode::Drop) },
        ]
    );
    assert!(tracer.jtable().check_consistency());
}

#[test]
fn phantom_function_leaves_its_call_and_its_return() {
    let mut tracer = Tracer::new(vec![7]);
    assert_eq!(tracer.step(push_const(100, 0, 0, 1)), Ok(Some(1)));
    assert_eq!(tracer.step(call(99, 0, 1, 7)), Ok(Some(2)));
    // Inside the phantom function: nothing is recorded.
    assert_eq!(tracer.step(push_const(99, 7, 0, 3)), Ok(None));
    assert_eq!(tracer.step(push_const(98, 7, 1, 4)), Ok(None));
    assert_eq!(tracer.step(drop_top(97, 7, 2)), Ok(None));
    // A call further in and its return are only counted.
    assert_eq!(tracer.step(call(98, 7, 3, 8)), Ok(None));
    assert_eq!(tracer.step(push_const(98, 8, 0, 4)), Ok(None));
    assert_eq!(tracer.step(ret(97, 8, 1)), Ok(None));
    assert_eq!(tracer.step(drop_top(97, 7, 4)), Ok(None));
    // The return that leaves the phantom function.
    assert_eq!(tracer.step(ret(99, 7, 5)), Ok(Some(3)));
    assert_eq!(tracer.step(drop_top(99, 0, 2)), Ok(Some(4)));

    assert_eq!(tracer.jtable().entries().len(), 1);
    assert_eq!(tracer.jtable().entries()[0].eid, 2);
    assert_eq!(tracer.jtable().entries()[0].callee_fid, 7);
    let entries = tracer.etable().entries();
    assert_eq!(entries.len(), 4);
    let interior = entries
        .iter()
        .filter(|e| e.inst.fid == 7 && !matches!(e.step_info, StepInfo::Return { .. }))
        .count();
    assert_eq!(interior, 0);
    assert_eq!(entries.iter().filter(|e| e.inst.fid == 8).count(), 0);
    let eids: Vec<u32> = entries.iter().map(|e| e.eid).collect();
    assert_eq!(eids, vec![1, 2, 3, 4]);
    assert_eq!(entries[2].last_jump_eid, 2);
    assert_eq!(entries[3].last_jump_eid, 0);
}

#[test]
fn function_that_is_not_phantom_is_traced_step_by_step() {
    let mut tracer = Tracer::new(vec![7]);
    assert_eq!(tracer.step(call(99, 0, 1, 6)), Ok(Some(1)));
    assert_eq!(tracer.step(push_const(99, 6, 0, 3)), Ok(Some(2)));
    assert_eq!(tracer.step(ret(98, 6, 1)), Ok(Some(3)));
    assert_eq!(tracer.etable().entries().len(), 3);
}

#[test]
fn step_that_does_not_fit_its_instruction_is_refused() {
    let mut tracer = Tracer::new(vec![]);
    let wrong = observe(100, inst(0, 0, Opcode::Drop), StepInfo::I32Const { value: 1 });
    assert_eq!(tracer.step(wrong), Err(TraceError::OpcodeMismatch));
    assert_eq!(tracer.eid(), 0);
    assert!(tracer.etable().entries().is_empty());
}

#[test]
fn step_beyond_the_stack_is_refused() {
    let mut tracer = Tracer::new(vec![]);
    let grow = observe(
        u32::MAX,
        inst(0, 0, Opcode::MemoryGrow),
        StepInfo::MemoryGrow { grow_size: 1, result: 1 },
    );
    assert_eq!(tracer.step(grow), Err(TraceError::StackOutOfRange));
    let leaves_the_stack = observe(
        u32::MAX,
        inst(0, 0, Opcode::Return { drop: 1, keep: None }),
        StepInfo::Return { drop: 1, keep: None },
    );
    assert_eq!(tracer.step(leaves_the_stack), Err(TraceError::StackOutOfRange));
    assert_eq!(tracer.eid(), 0);
    assert_eq!(tracer.step(push_const(u32::MAX, 0, 0, 1)), Ok(Some(1)));
}

#[test]
fn call_without_return_address_is_refused() {
    let mut tracer = Tracer::new(vec![]);
    let mut c = call(100, 0, 0, 1);
    c.return_to = None;
    assert_eq!(tracer.step(c), Err(TraceError::MissingReturnAddress));
    assert!(tracer.jtable().entries().is_empty());
    assert_eq!(tracer.last_jump_eid(), Some(0));
}

#[test]
fn step_after_the_entry_function_returned_is_refused() {
    let mut tracer = Tracer::new(vec![]);
    assert_eq!(tracer.step(ret(100, 0, 0)), Ok(Some(1)));
    assert_eq!(tracer.last_jump_eid(), None);
    assert_eq!(tracer.step(ret(100, 0, 1)), Err(TraceError::NoOpenFrame));
    assert_eq!(tracer.step(drop_top(100, 0, 1)), Err(TraceError::NoOpenFrame));
    assert_eq!(tracer.eid(), 1);
}

#[test]
fn finished_tracer_hands_out_its_tables_with_the_memory_table() {
    let mut tracer = Tracer::new(vec![]);
    tracer.step(push_const(100, 0, 0, 9)).unwrap();
    tracer.step(drop_top(99, 0, 1)).unwrap();
    tracer.step(ret(100, 0, 2)).unwrap();
    let tables = tracer.finish();
    assert_eq!(tables.etable.entries().len(), 3);
    assert_eq!(tables.mtable.entries().len(), 1);
    assert_eq!(tables.mtable.entries()[0].eid, 1);
    assert_eq!(tables.mtable.entries()[0].offset, 100);
    assert_eq!(tables.mtable.entries()[0].value, 9);
    assert!(tables.jtable.entries().is_empty());
}

fn module(idx_of_entry: u32, has_start: bool) -> InstantiatedModule {
    InstantiatedModule {
        itable: vec![inst(idx_of_entry, 0, Opcode::Return { drop: 0, keep: None })],
        imtable: InitMemoryTable::default(),
        elem_table: vec![],
        configure_table: ConfigureTable { init_memory_pages: 2, maximal_memory_pages: 10 },
        idx_of_entry,
        has_start,
        phantom_functions: vec![],
    }
}

#[test]
fn compile_without_start_function_has_one_static_frame() {
    let image = WasmiRuntime::compile(module(3, false), "zkmain", false);
    assert_eq!(image.entry, "zkmain");
    assert_eq!(
        image.tables.static_jtable,
        vec![StaticFrameEntry { enable: true, frame_id: 0, next_frame_id: 0, callee_fid: 3, fid: 0, iid: 0 }]
    );
    assert_eq!(image.tables.fid_of_entry, 3);
    assert_eq!(
        image.tables.initialization_state,
        InitializationState {
            eid: 1,
            fid: 3,
            iid: 0,
            frame_id: 0,
            sp: 4095,
            host_public_inputs: 1,
            context_in_index: 1,
            context_out_index: 1,
            external_host_call_call_index: 1,
            initial_memory_pages: 2,
            maximal_memory_pages: 10,
            jops: None,
        }
    );
    assert_eq!(DEFAULT_VALUE_STACK_LIMIT, 4096);
    assert_eq!(image.tracer.eid(), 0);
}

#[test]
fn compile_with_start_function_has_two_static_frames() {
    let image = WasmiRuntime::compile(module(3, true), "zkmain", true);
    assert_eq!(
        image.tables.static_jtable,
        vec![
            StaticFrameEntry { enable: true, frame_id: 0, next_frame_id: 0, callee_fid: 3, fid: 0, iid: 0 },
            StaticFrameEntry { enable: true, frame_id: 0, next_frame_id: 0, callee_fid: 0, fid: 3, iid: 0 },
        ]
    );
    assert_eq!(image.tables.fid_of_entry, 0);
    assert_eq!(image.tables.initialization_state.fid, 0);
    assert_eq!(image.tables.initialization_state.jops, Some(0));
    assert_eq!(image.tables.configure_table.maximal_memory_pages, 10);
    assert_eq!(image.tables.itable.len(), 1);
}

#[test]
fn run_puts_the_tables_of_module_and_tracer_together() {
    let CompiledImage { entry, tables, mut tracer } = WasmiRuntime::compile(module(0, false), "zkmain", false);
    tracer.step(push_const(4095, 0, 0, 9)).unwrap();
    tracer.step(ret(4094, 0, 1)).unwrap();
    let image = CompiledImage { entry, tables, tracer };
    let io = WasmRuntimeIO { public_inputs_and_outputs: vec![1, 2], outputs: vec![2] };
    let result = image.run(Some(9), io).unwrap();
    assert_eq!(result.result, Some(9));
    assert_eq!(result.public_inputs_and_outputs, vec![1, 2]);
    assert_eq!(result.outputs, vec![2]);
    assert_eq!(result.tables.execution_tables.etable.entries().len(), 2);
    assert_eq!(result.tables.execution_tables.etable.get_latest_eid(), 2);
    assert_eq!(result.tables.execution_tables.mtable.entries().len(), 1);
    assert!(result.tables.is_last_slice);
}

#[test]
fn image_at_the_end_of_a_run_holds_what_the_run_wrote_and_the_state_after_it() {
    let mut compiled = module(0, false);
    compiled.imtable = InitMemoryTable::new(vec![InitMemoryTableEntry {
        ltype: LocationType::Global,
        is_mutable: true,
        offset: 0,
        vtype: VarType::I32,
        value: 1,
        eid: 0,
    }]);
    let CompiledImage { entry, tables, mut tracer } = WasmiRuntime::compile(compiled, "zkmain", true);
    tracer.step(push_const(4095, 0, 0, 9)).unwrap();
    let set = observe(
        4094,
        inst(0, 1, Opcode::GlobalSet { idx: 0 }),
        StepInfo::SetGlobal { idx: 0, vtype: VarType::I32, is_mutable: true, value: 9 },
    );
    tracer.step(set).unwrap();
    tracer.step(ret(4095, 0, 2)).unwrap();
    let result = CompiledImage { entry, tables, tracer }.run(None, WasmRuntimeIO::empty()).unwrap();

    let start = &result.tables.compilation_tables;
    let end = &result.tables.post_image_table;
    assert_eq!(start.initialization_state.eid, 1);
    assert_eq!(end.initialization_state.eid, 4);
    assert_eq!(end.initialization_state.sp, 4095);
    assert_eq!(
        (end.initialization_state.fid, end.initialization_state.iid, end.initialization_state.frame_id),
        (0, 0, 0)
    );
    assert_eq!(end.initialization_state.jops, Some(1));
    assert_eq!(end.initialization_state.host_public_inputs, 1);
    assert_eq!(start.imtable.try_find(LocationType::Global, 0).unwrap().value, 1);
    let global = end.imtable.try_find(LocationType::Global, 0).unwrap();
    assert_eq!((global.value, global.eid), (9, 2));
    assert_eq!(end.imtable.try_find(LocationType::Stack, 4095).unwrap().value, 9);
    assert_eq!(end.itable, start.itable);
    assert_eq!(end.elem_table, start.elem_table);
    assert_eq!(end.configure_table, start.configure_table);
    assert_eq!(end.static_jtable, start.static_jtable);
    assert_eq!(end.fid_of_entry, start.fid_of_entry);
}

#[test]
fn run_whose_counters_leave_their_bits_is_refused() {
    let CompiledImage { entry, mut tables, mut tracer } = WasmiRuntime::compile(module(0, false), "zkmain", true);
    tables.initialization_state.jops = Some(u32::MAX);
    tracer.step(ret(4095, 0, 0)).unwrap();
    let image = CompiledImage { entry, tables, tracer };
    assert_eq!(image.run(None, WasmRuntimeIO::empty()).err(), Some(ExecutionError::StateOverflow));
}

#[test]
fn step_that_observed_other_operands_than_its_instruction_is_refused() {
    let mut tracer = Tracer::new(vec![]);
    let wrong_drop = observe(
        100,
        inst(0, 0, Opcode::Return { drop: 1, keep: None }),
        StepInfo::Return { drop: 2, keep: None },
    );
    assert_eq!(tracer.step(wrong_drop), Err(TraceError::OpcodeMismatch));
    let wrong_callee = Observation {
        sp: 100,
        allocated_memory_pages: 1,
        inst: inst(0, 0, Opcode::Call { index: 3 }),
        step_info: StepInfo::Call { index: 4 },
        return_to: Some(inst(0, 1, Opcode::Drop)),
    };
    assert_eq!(tracer.step(wrong_callee), Err(TraceError::OpcodeMismatch));
    let wrong_local = observe(
        100,
        inst(0, 0, Opcode::LocalGet { vtype: VarType::I32, offset: 2 }),
        StepInfo::GetLocal { vtype: VarType::I32, depth: 3, value: 0 },
    );
    assert_eq!(tracer.step(wrong_local), Err(TraceError::OpcodeMismatch));
    assert_eq!(tracer.eid(), 0);
    assert!(agrees(Opcode::Return { drop: 1, keep: None }, StepInfo::Return { drop: 1, keep: None }));
    assert!(!agrees(
        Opcode::Return { drop: 1, keep: Some(ValueType::I32) },
        StepInfo::Return { drop: 1, keep: None }
    ));
    assert!(agrees(Opcode::Drop, StepInfo::Drop));
    assert!(!agrees(Opcode::Drop, StepInfo::Unreachable));
}
