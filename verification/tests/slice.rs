use zkwasm::circuits::mtable::check_memory_consistency;
use zkwasm::continuation::slice::update_init_memory_table;
use zkwasm::continuation::slice::update_initialization_state;
use zkwasm::continuation::slice::Slice;
use zkwasm::continuation::slice::SliceError;
use zkwasm::continuation::slice::Slices;
use zkwasm::runtime::memory_table_of;
use zkwasm::specs::configure_table::ConfigureTable;
use zkwasm::specs::etable::EventTable;
use zkwasm::specs::etable::EventTableEntry;
use zkwasm::specs::host_function::HostPlugin;
use zkwasm::specs::host_function::CONTEXT_OP_READ;
use zkwasm::specs::host_function::CONTEXT_OP_WRITE;
use zkwasm::specs::host_function::HOST_INPUT_OP_INPUT;
use zkwasm::specs::imtable::InitMemoryTable;
use zkwasm::specs::imtable::InitMemoryTableEntry;
use zkwasm::specs::itable::InstructionTableEntry;
use zkwasm::specs::itable::Opcode;
use zkwasm::specs::jtable::JumpTable;
use zkwasm::specs::jtable::JumpTableEntry;
use zkwasm::specs::mtable::AccessType;
use zkwasm::specs::mtable::LocationType;
use zkwasm::specs::mtable::MemoryReadSize;
use zkwasm::specs::mtable::MemoryStoreSize;
use zkwasm::specs::mtable::MemoryTableEntry;
use zkwasm::specs::mtable::ValueType;
use zkwasm::specs::mtable::VarType;
use zkwasm::specs::state::InitializationState;
use zkwasm::specs::step::StepInfo;
use zkwasm::specs::step::TypedValue;
use zkwasm::specs::tables::CompilationTable;
use zkwasm::specs::tables::ExecutionTable;
use zkwasm::specs::tables::Tables;

fn initial_state(jops: Option<u32>) -> InitializationState<u32> {
    InitializationState {
        eid: 1,
        fid: 0,
        iid: 0,
        frame_id: 0,
        sp: 4095,
        host_public_inputs: 1,
        context_in_index: 1,
        context_out_index: 1,
        external_host_call_call_index: 1,
        initial_memory_pages: 1,
        maximal_memory_pages: 8,
        jops,
    }
}

fn const_step(eid: u32) -> EventTableEntry {
    EventTableEntry {
        eid,
        sp: 4096 - eid,
        allocated_memory_pages: 1,
        last_jump_eid: 0,
        inst: InstructionTableEntry {
            fid: 0,
            iid: eid - 1,
            opcode: Opcode::Const { vtype: VarType::I32, value: eid as u64 },
        },
        step_info: StepInfo::I32Const { value: eid },
    }
}

fn compilation(jops: Option<u32>) -> CompilationTable {
    CompilationTable {
        itable: vec![],
        imtable: InitMemoryTable::default(),
        elem_table: vec![],
        configure_table: ConfigureTable { init_memory_pages: 1, maximal_memory_pages: 8 },
        static_jtable: vec![],
        fid_of_entry: 0,
        initialization_state: initial_state(jops),
    }
}

fn tables_of(events: Vec<EventTableEntry>, jops: Option<u32>) -> Tables {
    let mtable = memory_table_of(&events);
    Tables {
        compilation_tables: compilation(jops),
        execution_tables: ExecutionTable {
            etable: EventTable::new(events),
            mtable,
            jtable: JumpTable::default(),
        },
        post_image_table: compilation(jops),
        is_last_slice: true,
    }
}

fn synthetic(steps: u32) -> Vec<EventTableEntry> {
    (1..=steps).map(const_step).collect()
}

fn slices_of(events: Vec<EventTableEntry>, capacity: usize) -> Vec<Slice> {
    Slices::new(tables_of(events, None), capacity).unwrap().collect()
}

#[test]
fn two_capacities_and_one_step_make_three_slices() {
    let capacity = 5;
    let events = synthetic(2 * capacity as u32 + 1);
    let slices = Slices::new(tables_of(events.clone(), None), capacity).unwrap();
    assert_eq!(slices.num_slices(), 3);
    assert_eq!(slices.capability(), capacity);
    let slices = slices.collect();
    let sizes: Vec<usize> = slices.iter().map(|s| s.table.execution_tables.etable.entries().len()).collect();
    assert_eq!(sizes, vec![capacity, capacity, 1]);
    let last: Vec<bool> = slices.iter().map(|s| s.table.is_last_slice).collect();
    assert_eq!(last, vec![false, false, true]);
    for slice in slices.iter() {
        assert_eq!(slice.table.execution_tables.etable.get_latest_eid(), 0);
    }

    // The state between the first and the second slice is the state observed after step C.
    let after_step_c = InitializationState {
        eid: capacity as u32 + 1,
        fid: 0,
        iid: capacity as u32,
        frame_id: 0,
        sp: 4096 - (capacity as u32 + 1),
        host_public_inputs: 1,
        context_in_index: 1,
        context_out_index: 1,
        external_host_call_call_index: 1,
        initial_memory_pages: 1,
        maximal_memory_pages: 8,
        jops: None,
    };
    assert_eq!(slices[0].table.post_image_table.initialization_state, after_step_c);
    assert_eq!(slices[1].table.compilation_tables.initialization_state, after_step_c);
    assert_eq!(slices[0].table.compilation_tables.initialization_state, initial_state(None));
    assert_eq!(
        slices[1].table.post_image_table.initialization_state,
        slices[2].table.compilation_tables.initialization_state
    );
}

#[test]
fn slices_joined_are_the_event_table() {
    for capacity in 1..9usize {
        let events = synthetic(13);
        let joined: Vec<EventTableEntry> = slices_of(events.clone(), capacity)
            .iter()
            .flat_map(|s| s.table.execution_tables.etable.entries().clone())
            .collect();
        assert_eq!(joined, events);
    }
}

#[test]
fn eids_run_through_the_slices_without_gaps() {
    let slices = slices_of(synthetic(10), 4);
    let mut expected = 1;
    for slice in slices.iter() {
        assert_eq!(slice.table.compilation_tables.initialization_state.eid, expected);
        for entry in slice.table.execution_tables.etable.entries() {
            assert_eq!(entry.eid, expected);
            expected += 1;
        }
        assert_eq!(slice.table.post_image_table.initialization_state.eid, expected);
    }
    assert_eq!(expected, 11);
}

#[test]
fn slicing_twice_gives_the_same_slices() {
    let first = slices_of(synthetic(11), 3);
    let second = slices_of(synthetic(11), 3);
    assert_eq!(first, second);
    // The latest id that the table of the run handed out does not reach the slices.
    let mut tables = tables_of(synthetic(11), None);
    tables.execution_tables.etable.latest_eid = 11;
    let third = Slices::new(tables, 3).unwrap().collect();
    assert_eq!(first, third);
}

#[test]
fn slicing_a_slice_again_gives_the_slice() {
    let slices = slices_of(synthetic(11), 4);
    for slice in slices.iter() {
        let again = Slices::new(slice.table.clone(), 4).unwrap().collect();
        assert_eq!(again.len(), 1);
        assert_eq!(again[0].table.execution_tables, slice.table.execution_tables);
        assert_eq!(again[0].table.compilation_tables, slice.table.compilation_tables);
        assert!(again[0].table.is_last_slice);
    }
}

#[test]
fn execution_that_fills_its_slices_has_no_empty_slice() {
    let slices = slices_of(synthetic(8), 4);
    assert_eq!(slices.len(), 2);
    assert_eq!(slices[1].table.execution_tables.etable.entries().len(), 4);
    assert!(slices[1].table.is_last_slice);
    assert_eq!(slices_of(synthetic(4), 4).len(), 1);
    assert_eq!(slices_of(synthetic(5), 4).len(), 2);
}

#[test]
fn execution_without_steps_is_one_slice_that_ends_where_it_starts() {
    let slices = Slices::new(tables_of(vec![], Some(0)), 4).unwrap();
    assert_eq!(slices.num_slices(), 1);
    let slices = slices.collect();
    assert_eq!(slices.len(), 1);
    let slice = &slices[0];
    assert!(slice.table.is_last_slice);
    assert!(slice.table.execution_tables.etable.entries().is_empty());
    assert_eq!(slice.table.compilation_tables.initialization_state, initial_state(Some(0)));
    assert_eq!(slice.table.post_image_table.initialization_state, initial_state(Some(0)));
    assert_eq!(slice.capability, 4);
}

#[test]
fn next_hands_out_slice_after_slice() {
    let mut slices = Slices::new(tables_of(synthetic(3), None), 2).unwrap();
    let first = slices.next().unwrap();
    assert_eq!(first.table.execution_tables.etable.entries().len(), 2);
    let second = slices.next().unwrap();
    assert_eq!(second.table.execution_tables.etable.entries().len(), 1);
    assert!(slices.next().is_none());
    assert!(slices.next().is_none());
    assert_eq!(slices.num_slices(), 2);
}

#[test]
fn last_slice_ends_after_the_last_step() {
    let mut events = synthetic(2);
    events.push(EventTableEntry {
        eid: 3,
        sp: 4093,
        allocated_memory_pages: 2,
        last_jump_eid: 0,
        inst: InstructionTableEntry {
            fid: 0,
            iid: 2,
            opcode: Opcode::Return { drop: 2, keep: None },
        },
        step_info: StepInfo::Return { drop: 2, keep: None },
    });
    let slices = Slices::new(tables_of(events, Some(0)), 10).unwrap().collect();
    let post = slices[0].table.post_image_table.initialization_state;
    assert_eq!(post.eid, 4);
    assert_eq!(post.fid, 0);
    assert_eq!(post.iid, 0);
    assert_eq!(post.frame_id, 0);
    assert_eq!(post.sp, 4095);
    assert_eq!(post.initial_memory_pages, 2);
    assert_eq!(post.maximal_memory_pages, 8);
    assert_eq!(post.jops, Some(1));
}

#[test]
fn last_slice_that_ends_without_return_keeps_the_stack_pointer() {
    let slices = slices_of(synthetic(2), 10);
    let post = slices[0].table.post_image_table.initialization_state;
    assert_eq!(post.eid, 3);
    assert_eq!(post.sp, 4094);
}

fn host(eid: u32, plugin: HostPlugin, op: u32, arg: Option<u64>) -> EventTableEntry {
    EventTableEntry {
        eid,
        sp: 4000,
        allocated_memory_pages: 1,
        last_jump_eid: 0,
        inst: InstructionTableEntry {
            fid: 0,
            iid: eid,
            opcode: Opcode::InternalHostCall { plugin, function_index: 0, op_index_in_plugin: op },
        },
        step_info: StepInfo::CallHost {
            plugin,
            op_index_in_plugin: op,
            arg: arg.map(|value| TypedValue { vtype: ValueType::I32, value }),
            ret: None,
        },
    }
}

#[test]
fn counters_at_a_boundary_count_the_steps_before_it() {
    let events = vec![
        host(1, HostPlugin::HostInput, HOST_INPUT_OP_INPUT, Some(1)),
        host(2, HostPlugin::HostInput, HOST_INPUT_OP_INPUT, Some(0)),
        host(3, HostPlugin::Context, CONTEXT_OP_READ, None),
        host(4, HostPlugin::Context, CONTEXT_OP_WRITE, Some(3)),
        host(5, HostPlugin::Context, CONTEXT_OP_WRITE, Some(3)),
        const_step(6),
    ];
    let init = initial_state(Some(5));
    let at = |start: usize, end: usize, current: &InitializationState<u32>| {
        update_initialization_state(&events, &init, current, start, end)
    };
    let after_two = at(0, 2, &init);
    assert_eq!(after_two.host_public_inputs, 2);
    assert_eq!(after_two.context_in_index, 1);
    assert_eq!(after_two.eid, 3);
    let after_five = at(2, 5, &after_two);
    assert_eq!(after_five.host_public_inputs, 2);
    assert_eq!(after_five.context_in_index, 2);
    assert_eq!(after_five.context_out_index, 3);
    assert_eq!(after_five.external_host_call_call_index, 1);
    assert_eq!(after_five.jops, Some(5));
    assert_eq!(after_five.eid, 6);
    assert_eq!(after_five.sp, 4090);
    assert_eq!(at(0, 5, &init), after_five);
    let end = at(5, 6, &after_five);
    assert_eq!(end.eid, 7);
    assert_eq!(end.fid, 0);
}

#[test]
fn memory_and_jump_entries_go_with_their_steps() {
    let events = synthetic(5);
    let mut tables = tables_of(events, None);
    let call = |eid| JumpTableEntry {
        eid,
        last_jump_eid: 0,
        callee_fid: 1,
        inst: InstructionTableEntry { fid: 0, iid: 0, opcode: Opcode::Drop },
    };
    tables.execution_tables.jtable = JumpTable::new(vec![call(2), call(3), call(5)]);
    let slices = Slices::new(tables, 2).unwrap().collect();
    let memory_eids: Vec<Vec<u32>> = slices
        .iter()
        .map(|s| s.table.execution_tables.mtable.entries().iter().map(|m| m.eid).collect())
        .collect();
    assert_eq!(memory_eids, vec![vec![1, 2], vec![3, 4], vec![5]]);
    let jump_eids: Vec<Vec<u32>> = slices
        .iter()
        .map(|s| s.table.execution_tables.jtable.entries().iter().map(|j| j.eid).collect())
        .collect();
    assert_eq!(jump_eids, vec![vec![2], vec![3], vec![5]]);
}

#[test]
fn slice_starts_from_the_memory_that_the_slices_before_it_left() {
    let slices = slices_of(synthetic(4), 2);
    assert!(slices[0].table.compilation_tables.imtable.entries().is_empty());
    let left_by_first = vec![
        InitMemoryTableEntry {
            ltype: LocationType::Stack,
            is_mutable: true,
            offset: 4095,
            vtype: VarType::I32,
            value: 1,
            eid: 1,
        },
        InitMemoryTableEntry {
            ltype: LocationType::Stack,
            is_mutable: true,
            offset: 4094,
            vtype: VarType::I32,
            value: 2,
            eid: 2,
        },
    ];
    assert_eq!(slices[0].table.post_image_table.imtable.entries(), &left_by_first);
    assert_eq!(slices[1].table.compilation_tables.imtable.entries(), &left_by_first);
    assert_eq!(slices[1].table.post_image_table.imtable.entries().len(), 4);
    for slice in slices.iter() {
        assert!(check_memory_consistency(
            &slice.table.compilation_tables.imtable,
            &slice.table.execution_tables.mtable
        ));
    }
}

#[test]
fn only_writes_change_the_initial_memory() {
    let op = |atype, value| MemoryTableEntry {
        eid: 3,
        offset: 9,
        ltype: LocationType::Heap,
        atype,
        vtype: VarType::I64,
        is_mutable: true,
        value,
    };
    let mut imtable = InitMemoryTable::default();
    update_init_memory_table(
        &mut imtable,
        &vec![op(AccessType::Read, 0), op(AccessType::Write, 5), op(AccessType::Read, 5), op(AccessType::Init, 6)],
    );
    assert_eq!(imtable.entries().len(), 1);
    assert_eq!(imtable.try_find(LocationType::Heap, 9).unwrap().value, 5);
    assert_eq!(imtable.try_find(LocationType::Heap, 9).unwrap().eid, 3);
}

#[test]
fn capacity_of_zero_is_refused() {
    assert_eq!(Slices::new(tables_of(synthetic(3), None), 0).err(), Some(SliceError::ZeroCapability));
}

#[test]
fn state_that_leaves_its_bits_is_refused() {
    let inputs = || {
        vec![
            host(1, HostPlugin::HostInput, HOST_INPUT_OP_INPUT, Some(1)),
            host(2, HostPlugin::HostInput, HOST_INPUT_OP_INPUT, Some(1)),
            host(3, HostPlugin::HostInput, HOST_INPUT_OP_INPUT, Some(0)),
        ]
    };
    let mut tables = tables_of(inputs(), None);
    tables.compilation_tables.initialization_state.host_public_inputs = u32::MAX - 1;
    assert_eq!(Slices::new(tables, 2).err(), Some(SliceError::StateOverflow));

    // Two public inputs fit a counter that has room for two.
    let mut tables = tables_of(inputs(), None);
    tables.compilation_tables.initialization_state.host_public_inputs = u32::MAX - 2;
    let slices = Slices::new(tables, 2).unwrap().collect();
    assert_eq!(slices[1].table.post_image_table.initialization_state.host_public_inputs, u32::MAX);

    // Steps that do not count leave a full counter as it is.
    let mut tables = tables_of(synthetic(3), None);
    tables.compilation_tables.initialization_state.context_out_index = u32::MAX;
    assert!(Slices::new(tables, 2).is_ok());

    let mut last = const_step(3);
    last.eid = u32::MAX;
    let tables = tables_of(vec![const_step(1), const_step(2), last], None);
    assert_eq!(Slices::new(tables, 2).err(), Some(SliceError::StateOverflow));
}

#[test]
fn slice_builds_the_circuit_of_its_tables() {
    let slices = slices_of(synthetic(3), 2);
    let tables = slices[0].table.clone();
    let slice = Slice::new(tables.clone(), 2);
    let circuit = slice.build_circuit();
    assert_eq!(circuit.tables, tables);
    assert_eq!(circuit.configure.initial_memory_pages, 1);
    assert_eq!(circuit.configure.maximal_memory_pages, 8);
}

fn store_then_load(loaded: u64) -> Vec<EventTableEntry> {
    let step = |eid: u32, sp: u32, step_info: StepInfo| EventTableEntry {
        eid,
        sp,
        allocated_memory_pages: 1,
        last_jump_eid: 0,
        inst: InstructionTableEntry { fid: 0, iid: eid, opcode: Opcode::Drop },
        step_info,
    };
    vec![
        step(1, 100, StepInfo::I32Const { value: 16 }),
        step(2, 99, StepInfo::I32Const { value: 77 }),
        step(
            3,
            98,
            StepInfo::Store {
                vtype: VarType::I32,
                store_size: MemoryStoreSize::Byte32,
                offset: 0,
                raw_address: 16,
                effective_address: 16,
                pre_block_value1: 0,
                updated_block_value1: 77,
                pre_block_value2: 0,
                updated_block_value2: 0,
                value: 77,
            },
        ),
        step(4, 100, StepInfo::I32Const { value: 16 }),
        step(
            5,
            99,
            StepInfo::Load {
                vtype: VarType::I32,
                load_size: MemoryReadSize::U32,
                offset: 0,
                raw_address: 16,
                effective_address: 16,
                value: loaded,
                block_value1: loaded,
                block_value2: 0,
            },
        ),
    ]
}

#[test]
fn slices_are_consistent_exactly_if_the_run_is() {
    for loaded in [77, 78] {
        for capacity in 1..7 {
            let events = store_then_load(loaded);
            let whole = check_memory_consistency(&InitMemoryTable::default(), &memory_table_of(&events));
            assert_eq!(whole, loaded == 77);
            let slices = slices_of(events, capacity);
            let each = slices.iter().all(|slice| {
                check_memory_consistency(
                    &slice.table.compilation_tables.imtable,
                    &slice.table.execution_tables.mtable,
                )
            });
            assert_eq!(each, whole);
        }
    }
}
