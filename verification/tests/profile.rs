use zkwasm::circuits::config_builder::op_br_if::BrIfConfig;
use zkwasm::circuits::etable::assign::EventTableChip;
use zkwasm::circuits::test_circuit::filter_external_host_call_table;
use zkwasm::circuits::CircuitConfigure;
use zkwasm::circuits::TestCircuit;
use zkwasm::circuits::ZkWasmCircuitBuilder;
use zkwasm::profile::instruction_statistic::check_profilable;
use zkwasm::profile::instruction_statistic::present_classes;
use zkwasm::profile::instruction_statistic::InstructionStatistic;
use zkwasm::profile::instruction_statistic::Summary;
use zkwasm::runtime::check_all_in_range;
use zkwasm::runtime::memory_event_of_step;
use zkwasm::runtime::memory_table_of;
use zkwasm::specs::configure_table::ConfigureTable;
use zkwasm::specs::etable::EventTable;
use zkwasm::specs::etable::EventTableEntry;
use zkwasm::specs::host_function::ExternalHostCallSignature;
use zkwasm::specs::imtable::InitMemoryTable;
use zkwasm::specs::imtable::InitMemoryTableEntry;
use zkwasm::specs::itable::BinOp;
use zkwasm::specs::itable::InstructionTableEntry;
use zkwasm::specs::itable::Opcode;
use zkwasm::specs::itable::OpcodeClass;
use zkwasm::specs::itable::OPCODE_CLASS_COUNT;
use zkwasm::specs::jtable::JumpTable;
use zkwasm::specs::mtable::LocationType;
use zkwasm::specs::mtable::ValueType;
use zkwasm::specs::mtable::VarType;
use zkwasm::specs::state::InitializationState;
use zkwasm::specs::step::StepInfo;
use zkwasm::specs::step::TypedValue;
use zkwasm::specs::tables::CompilationTable;
use zkwasm::specs::tables::ExecutionTable;
use zkwasm::specs::tables::Tables;

fn entry(eid: u32, sp: u32, opcode: Opcode, step_info: StepInfo) -> EventTableEntry {
    EventTableEntry {
        eid,
        sp,
        allocated_memory_pages: 1,
        last_jump_eid: 0,
        inst: InstructionTableEntry { fid: 0, iid: eid - 1, opcode },
        step_info,
    }
}

fn constant(eid: u32, sp: u32, value: u32) -> EventTableEntry {
    entry(eid, sp, Opcode::Const { vtype: VarType::I32, value: value as u64 }, StepInfo::I32Const { value })
}

fn add(eid: u32, sp: u32) -> EventTableEntry {
    entry(
        eid,
        sp,
        Opcode::Bin { class: BinOp::Add, vtype: VarType::I32 },
        StepInfo::I32BinOp { class: BinOp::Add, left: 1, right: 2, value: 3 },
    )
}

fn drop_top(eid: u32, sp: u32) -> EventTableEntry {
    entry(eid, sp, Opcode::Drop, StepInfo::Drop)
}

fn ret(eid: u32, sp: u32) -> EventTableEntry {
    entry(eid, sp, Opcode::Return { drop: 0, keep: None }, StepInfo::Return { drop: 0, keep: None })
}

#[test]
fn profile_counts_steps_and_accesses_by_class() {
    let table = EventTable::new(vec![
        constant(1, 100, 1),
        constant(2, 99, 2),
        add(3, 98),
        drop_top(4, 99),
        constant(5, 100, 7),
        drop_top(6, 99),
        ret(7, 100),
    ]);
    let profile = table.profile_instruction();
    assert_eq!(profile.len(), OPCODE_CLASS_COUNT);
    let of = |class: OpcodeClass| profile[class.index()];
    assert_eq!(
        of(OpcodeClass::Const),
        Summary { counter: 3, mentries: 3, total_mentries: 6, write_counter: 3, read_counter: 0 }
    );
    assert_eq!(
        of(OpcodeClass::Bin),
        Summary { counter: 1, mentries: 3, total_mentries: 6, write_counter: 1, read_counter: 2 }
    );
    assert_eq!(
        of(OpcodeClass::Drop),
        Summary { counter: 2, mentries: 0, total_mentries: 6, write_counter: 0, read_counter: 0 }
    );
    assert_eq!(
        of(OpcodeClass::Return),
        Summary { counter: 1, mentries: 0, total_mentries: 6, write_counter: 0, read_counter: 0 }
    );
    assert_eq!(
        of(OpcodeClass::Load),
        Summary { counter: 0, mentries: 0, total_mentries: 6, write_counter: 0, read_counter: 0 }
    );
    let steps: usize = profile.iter().map(|s| s.counter).sum();
    assert_eq!(steps, 7);
    for summary in profile.iter() {
        assert_eq!(summary.write_counter + summary.read_counter, summary.mentries);
    }
    let present = present_classes(&profile);
    let classes: Vec<OpcodeClass> = present.iter().map(|(class, _)| *class).collect();
    assert_eq!(classes, vec![OpcodeClass::Const, OpcodeClass::Drop, OpcodeClass::Return, OpcodeClass::Bin]);
    for (class, summary) in present.iter() {
        assert_eq!(*summary, of(*class));
    }
    assert!(present_classes(&EventTable::default().profile_instruction()).is_empty());
    let accesses: usize = profile.iter().map(|s| s.mentries).sum();
    assert_eq!(accesses, 6);
}

#[test]
fn profile_of_nothing_is_all_zero() {
    let profile = EventTable::default().profile_instruction();
    assert_eq!(profile.len(), OPCODE_CLASS_COUNT);
    for summary in profile {
        assert_eq!(
            summary,
            Summary { counter: 0, mentries: 0, total_mentries: 0, write_counter: 0, read_counter: 0 }
        );
    }
}

#[test]
fn classes_have_their_own_positions() {
    let mut seen = vec![false; OPCODE_CLASS_COUNT];
    for index in 0..OPCODE_CLASS_COUNT {
        let class = OpcodeClass::from_index(index).unwrap();
        assert_eq!(class.index(), index);
        assert!(!seen[index]);
        seen[index] = true;
    }
    assert_eq!(OpcodeClass::from_index(OPCODE_CLASS_COUNT), None);
    assert_eq!(OpcodeClass::LocalGet.index(), 0);
    assert_eq!(OpcodeClass::ExternalHostCall.index(), 28);
    assert_eq!(Opcode::Drop.class(), OpcodeClass::Drop);
    assert_eq!(StepInfo::BrIfNez { condition: 0, dst_pc: 0, drop: 0, keep: None }.class(), OpcodeClass::BrIf);
    assert_eq!(StepInfo::I64Const { value: 0 }.class(), OpcodeClass::Const);
    assert_eq!(StepInfo::Call { index: 4 }.callee(), Some(4));
    assert_eq!(
        StepInfo::CallIndirect { table_index: 0, type_index: 0, offset: 0, func_index: 9 }.callee(),
        Some(9)
    );
    assert_eq!(StepInfo::Drop.callee(), None);
    assert_eq!(VarType::from(ValueType::I32), VarType::I32);
    assert_eq!(VarType::from(ValueType::I64), VarType::I64);
}

fn state() -> InitializationState<u32> {
    InitializationState {
        eid: 1,
        fid: 0,
        iid: 0,
        frame_id: 0,
        sp: 100,
        host_public_inputs: 1,
        context_in_index: 1,
        context_out_index: 1,
        external_host_call_call_index: 1,
        initial_memory_pages: 2,
        maximal_memory_pages: 9,
        jops: None,
    }
}

fn compilation(itable: Vec<InstructionTableEntry>, imtable: InitMemoryTable) -> CompilationTable {
    CompilationTable {
        itable,
        imtable,
        elem_table: vec![],
        configure_table: ConfigureTable { init_memory_pages: 2, maximal_memory_pages: 9 },
        static_jtable: vec![],
        fid_of_entry: 0,
        initialization_state: state(),
    }
}

fn tables(events: Vec<EventTableEntry>) -> Tables {
    let itable: Vec<InstructionTableEntry> = events.iter().map(|e| e.inst).collect();
    let mtable = memory_table_of(&events);
    let mut post = compilation(itable.clone(), InitMemoryTable::default());
    post.initialization_state.eid = events.len() as u32 + 1;
    Tables {
        compilation_tables: compilation(itable, InitMemoryTable::default()),
        execution_tables: ExecutionTable { etable: EventTable::new(events), mtable, jtable: JumpTable::default() },
        post_image_table: post,
        is_last_slice: true,
    }
}

#[test]
fn circuit_configuration_is_derived_from_the_compilation_table() {
    let heap = |offset| InitMemoryTableEntry {
        ltype: LocationType::Heap,
        is_mutable: true,
        offset,
        vtype: VarType::I64,
        value: 1,
        eid: 0,
    };
    let table = compilation(
        vec![constant(1, 1, 1).inst, add(2, 1).inst, constant(3, 1, 1).inst],
        InitMemoryTable::new(vec![heap(3), heap(10), heap(4)]),
    );
    let configure = CircuitConfigure::from_compilation_table(&table);
    assert_eq!(configure.initial_memory_pages, 2);
    assert_eq!(configure.maximal_memory_pages, 9);
    assert_eq!(configure.first_consecutive_zero_memory_offset, 11);
    assert_eq!(configure.opcode_selector.len(), OPCODE_CLASS_COUNT);
    for index in 0..OPCODE_CLASS_COUNT {
        let expected = index == OpcodeClass::Const.index() || index == OpcodeClass::Bin.index();
        assert_eq!(configure.opcode_selector[index], expected);
    }
    assert_eq!(configure.clone(), configure);
}

#[test]
fn builder_builds_the_circuit_of_its_tables() {
    let builder = ZkWasmCircuitBuilder {
        tables: tables(vec![constant(1, 100, 1), ret(2, 99)]),
        public_inputs_and_outputs: vec![4, 5],
    };
    let circuit = builder.build_circuit();
    assert_eq!(circuit.tables, builder.tables);
    assert!(circuit.configure.opcode_selector[OpcodeClass::Return.index()]);
    assert!(!circuit.configure.opcode_selector[OpcodeClass::Drop.index()]);
    assert_eq!(builder.instances(), vec![4, 5]);
}

#[test]
fn circuit_without_witnesses_keeps_the_static_tables() {
    let circuit = TestCircuit::new(tables(vec![constant(1, 100, 1), ret(2, 99)]));
    let shape = circuit.without_witnesses();
    assert_eq!(shape.tables.compilation_tables, circuit.tables.compilation_tables);
    assert_eq!(shape.tables.post_image_table, circuit.tables.post_image_table);
    assert_eq!(shape.tables.execution_tables, ExecutionTable::default());
    assert_eq!(shape.configure, circuit.configure);
    assert!(shape.tables.is_last_slice);
}

#[test]
fn trivial_program_is_one_step_followed_by_the_terminate_row() {
    let circuit = TestCircuit::new(tables(vec![ret(1, 100)]));
    let chip = EventTableChip::new((1 << 18) - 200);
    let synthesis = circuit.synthesize(&chip, u32::MAX, true).unwrap();
    let rows = &synthesis.etable.entries.rows;
    assert_eq!(rows.len(), 1);
    assert_eq!(rows[0].eid, 1);
    assert_eq!(rows[0].rest_mops, 0);
    assert_eq!(rows[0].jops, 1);
    assert_eq!(rows[0].class, OpcodeClass::Return);
    let terminate = synthesis.etable.entries.terminate.unwrap();
    assert_eq!(terminate.offset, 4);
    assert_eq!(terminate.eid, 2);
    assert_eq!(terminate.jops, 0);
    assert_eq!(synthesis.etable.selectors.offsets.len(), 65486);
    assert_eq!(synthesis.etable.initialization_state.eid.value, 1);
    assert!(synthesis.memory_writing_table.0.is_empty());
    assert!(synthesis.external_host_calls.is_empty());
    assert!(synthesis.jtable.is_empty());
}

#[test]
fn synthesis_hands_every_table_what_it_is_built_from() {
    let external = |eid, sp, sig| {
        entry(
            eid,
            sp,
            Opcode::ExternalHostCall { op: 2, sig },
            StepInfo::ExternalHostCall { op: 2, value: 8, sig },
        )
    };
    let events = vec![
        constant(1, 100, 8),
        external(2, 99, ExternalHostCallSignature::Argument),
        external(3, 100, ExternalHostCallSignature::Return),
        drop_top(4, 99),
        ret(5, 100),
    ];
    let circuit = TestCircuit::new(tables(events.clone()));
    let synthesis = circuit.synthesize(&EventTableChip::new(64), 999, true).unwrap();
    assert_eq!(synthesis.external_host_calls, vec![events[1], events[2]]);
    assert_eq!(filter_external_host_call_table(&events), vec![events[1], events[2]]);
    let writes: Vec<(usize, u32, u32)> =
        synthesis.memory_writing_table.0.iter().map(|w| (w.index, w.entry.eid, w.end_eid)).collect();
    assert_eq!(writes, vec![(0, 1, 3), (1, 3, 999)]);
    let rest: Vec<u32> = synthesis.etable.entries.rows.iter().map(|r| r.rest_mops).collect();
    assert_eq!(rest, vec![2, 1, 1, 0, 0]);
    let overflow = circuit.synthesize(&EventTableChip::new(19), 999, true);
    assert_eq!(overflow.err().unwrap().steps, 5);
}

fn br_if(eid: u32, condition: u32, drop: u32, keep: Option<TypedValue>, dst_pc: u32) -> EventTableEntry {
    entry(
        eid,
        100,
        Opcode::BrIf { drop, keep: keep.map(|k| k.vtype), dst_pc },
        StepInfo::BrIfNez { condition, dst_pc, drop, keep },
    )
}

#[test]
fn br_if_cells_hold_what_the_step_observed() {
    let keep = Some(TypedValue { vtype: ValueType::I64, value: 99 });
    let cells = BrIfConfig::assign(&br_if(3, 1, 2, keep, 17));
    assert_eq!(cells, BrIfConfig { drop: 2, keep: 1, keep_value: keep, condition: 1, dst_pc: 17 });
    assert_eq!(cells.mops(), 3);
    assert_eq!(cells.sp_diff(), 3);
    assert!(cells.handle_jump());
    assert_eq!(cells.opcode_class(), OpcodeClass::BrIf);
    assert_eq!(cells.mops() as usize, memory_event_of_step(&br_if(3, 1, 2, keep, 17)).len());

    let plain = BrIfConfig::assign(&br_if(3, 0, 0, None, 17));
    assert_eq!(plain, BrIfConfig { drop: 0, keep: 0, keep_value: None, condition: 0, dst_pc: 17 });
    assert_eq!(plain.mops(), 1);
    assert_eq!(plain.sp_diff(), 1);
}

#[test]
fn br_if_goes_to_the_target_only_on_a_condition_that_is_not_zero() {
    let jumping = BrIfConfig::assign(&br_if(3, 5, 0, None, 17));
    assert!(jumping.check_pc_jump(2, 17));
    assert!(!jumping.check_pc_jump(2, 3));
    let falling = BrIfConfig::assign(&br_if(3, 0, 0, None, 17));
    assert!(falling.check_pc_jump(2, 3));
    assert!(!falling.check_pc_jump(2, 17));
    assert!(!falling.check_pc_jump(u32::MAX, 0));
}

#[test]
fn steps_beyond_the_stack_can_be_neither_laid_out_nor_profiled() {
    let good = vec![constant(1, 100, 1), ret(2, 99)];
    let bad = vec![constant(1, 100, 1), add(2, u32::MAX - 1)];
    assert!(check_all_in_range(&good));
    assert!(!check_all_in_range(&bad));
    assert!(check_all_in_range(&vec![]));
    assert!(check_profilable(&EventTable::new(good.clone())));
    assert!(!check_profilable(&EventTable::new(bad.clone())));
    assert!(TestCircuit::new(tables(good)).check_synthesizable());
    let external = entry(
        1,
        100,
        Opcode::ExternalHostCall { op: 2, sig: ExternalHostCallSignature::Return },
        StepInfo::ExternalHostCall { op: 2, value: 8, sig: ExternalHostCallSignature::Return },
    );
    let mut overflowing = tables(vec![external]);
    overflowing.compilation_tables.initialization_state.external_host_call_call_index = u32::MAX;
    assert!(!TestCircuit::new(overflowing).check_synthesizable());
    let mut full = tables(vec![constant(1, 100, 1)]);
    full.compilation_tables.initialization_state.external_host_call_call_index = u32::MAX;
    assert!(TestCircuit::new(full).check_synthesizable());
}
