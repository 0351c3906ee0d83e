use zkwasm::circuits::config_builder::op_br_if::BrIfConfig;
use zkwasm::circuits::etable::assign::EventTableChip;
use zkwasm::circuits::mtable::check_memory_consistency;
use zkwasm::circuits::test_circuit::Synthesis;
use zkwasm::circuits::TestCircuit;
use zkwasm::continuation::slice::Slices;
use zkwasm::runtime::tracer::Observation;
use zkwasm::runtime::wasmi_interpreter::CompiledImage;
use zkwasm::runtime::wasmi_interpreter::InstantiatedModule;
use zkwasm::runtime::wasmi_interpreter::WasmRuntimeIO;
use zkwasm::runtime::wasmi_interpreter::WasmiRuntime;
use zkwasm::specs::configure_table::ConfigureTable;
use zkwasm::specs::imtable::InitMemoryTable;
use zkwasm::specs::itable::InstructionTableEntry;
use zkwasm::specs::itable::Opcode;
use zkwasm::specs::itable::OpcodeClass;
use zkwasm::specs::mtable::ValueType;
use zkwasm::specs::mtable::VarType;
use zkwasm::specs::step::StepInfo;
use zkwasm::specs::step::TypedValue;

const TOP: u32 = 4095;

fn constant(value: u32) -> (Opcode, StepInfo) {
    (Opcode::Const { vtype: VarType::I32, value: value as u64 }, StepInfo::I32Const { value })
}

fn br_if(condition: u32, drop: u32, keep: Option<(ValueType, u64)>, dst_pc: u32) -> (Opcode, StepInfo) {
    (
        Opcode::BrIf { drop, keep: keep.map(|k| k.0), dst_pc },
        StepInfo::BrIfNez {
            condition,
            dst_pc,
            drop,
            keep: keep.map(|(vtype, value)| TypedValue { vtype, value }),
        },
    )
}

fn drop_top() -> (Opcode, StepInfo) {
    (Opcode::Drop, StepInfo::Drop)
}

fn ret() -> (Opcode, StepInfo) {
    (Opcode::Return { drop: 0, keep: None }, StepInfo::Return { drop: 0, keep: None })
}

/// Runs the steps of function `test`, given as (instruction id, stack pointer
/// before the step, step), through the tracer, slices the run and lays out
/// the circuit of its one slice.
fn run_test_circuit(program: Vec<Opcode>, steps: Vec<(u32, u32, (Opcode, StepInfo))>) -> Synthesis {
    let itable: Vec<InstructionTableEntry> = program
        .iter()
        .enumerate()
        .map(|(iid, opcode)| InstructionTableEntry { fid: 0, iid: iid as u32, opcode: *opcode })
        .collect();
    let module = InstantiatedModule {
        itable: itable.clone(),
        imtable: InitMemoryTable::default(),
        elem_table: vec![],
        configure_table: ConfigureTable { init_memory_pages: 0, maximal_memory_pages: 0 },
        idx_of_entry: 0,
        has_start: false,
        phantom_functions: vec![],
    };
    let CompiledImage { entry, tables, mut tracer } = WasmiRuntime::compile(module, "test", false);
    for (i, (iid, sp, (opcode, step_info))) in steps.iter().enumerate() {
        assert_eq!(itable[*iid as usize].opcode, *opcode);
        let observation = Observation {
            sp: *sp,
            allocated_memory_pages: 0,
            inst: itable[*iid as usize],
            step_info: *step_info,
            return_to: None,
        };
        assert_eq!(tracer.step(observation), Ok(Some(i as u32 + 1)));
    }
    let result = CompiledImage { entry, tables, tracer }.run(None, WasmRuntimeIO::empty()).unwrap();
    assert!(check_memory_consistency(
        &result.tables.compilation_tables.imtable,
        &result.tables.execution_tables.mtable
    ));
    assert!(result.tables.execution_tables.jtable.check_consistency());

    let mut slices = Slices::new(result.tables, ((1 << 18) - 200) / 4).unwrap().collect();
    assert_eq!(slices.len(), 1);
    let circuit: TestCircuit = slices.pop().unwrap().build_circuit();
    assert!(circuit.configure.opcode_selector[OpcodeClass::BrIf.index()]);
    let synthesis = circuit.synthesize(&EventTableChip::new((1 << 18) - 200), u32::MAX, true).unwrap();
    let rows = &synthesis.etable.entries.rows;
    assert_eq!(rows.len(), steps.len());
    assert_eq!(rows[0].rest_mops as usize, synthesis.memory_writing_table.0.len());
    let terminate = synthesis.etable.entries.terminate.unwrap();
    assert_eq!(terminate.eid, steps.len() as u32 + 1);
    assert_eq!(terminate.rest_mops, 0);
    assert_eq!(terminate.jops, 0);
    assert_eq!(terminate.sp, TOP);
    synthesis
}

/// Where the branch among the rows stands, and where execution goes on after it.
fn branch_of(synthesis: &Synthesis) -> (u32, u32) {
    let rows = &synthesis.etable.entries.rows;
    let at = rows.iter().position(|r| r.class == OpcodeClass::BrIf).unwrap();
    (rows[at].iid, rows[at].step_status.next.iid)
}

// (module
//     (func (export "test")
//       (block
//         (i32.const 0)
//         br_if 0
//       )
//     )
//    )
#[test]
fn test_br_if_trivial_nojump_ok() {
    let program = vec![constant(0).0, br_if(0, 0, None, 2).0, ret().0];
    let steps = vec![(0, TOP, constant(0)), (1, TOP - 1, br_if(0, 0, None, 2)), (2, TOP, ret())];
    let branch = BrIfConfig::assign(&zkwasm::specs::etable::EventTableEntry {
        eid: 2,
        sp: TOP - 1,
        allocated_memory_pages: 0,
        last_jump_eid: 0,
        inst: InstructionTableEntry { fid: 0, iid: 1, opcode: program[1] },
        step_info: steps[1].2 .1,
    });
    let synthesis = run_test_circuit(program, steps);
    let (iid, next_iid) = branch_of(&synthesis);
    assert!(branch.check_pc_jump(iid, next_iid));
    assert_eq!((iid, next_iid), (1, 2));
}

// (module
//     (func (export "test")
//       (block
//         (i32.const 1)
//         br_if 0
//         (i32.const 0)
//         drop
//       )
//     )
//    )
#[test]
fn test_br_if_trivial_jump_ok() {
    let program =
        vec![constant(1).0, br_if(1, 0, None, 4).0, constant(0).0, drop_top().0, ret().0];
    let steps = vec![(0, TOP, constant(1)), (1, TOP - 1, br_if(1, 0, None, 4)), (4, TOP, ret())];
    let branch = BrIfConfig::assign(&zkwasm::specs::etable::EventTableEntry {
        eid: 2,
        sp: TOP - 1,
        allocated_memory_pages: 0,
        last_jump_eid: 0,
        inst: InstructionTableEntry { fid: 0, iid: 1, opcode: program[1] },
        step_info: steps[1].2 .1,
    });
    let synthesis = run_test_circuit(program, steps);
    let (iid, next_iid) = branch_of(&synthesis);
    assert!(branch.check_pc_jump(iid, next_iid));
    assert_eq!((iid, next_iid), (1, 4));
    assert_eq!(synthesis.etable.entries.rows.len(), 3);
}

// (module
//     (func (export "test")
//       (block (result i32)
//         (i32.const 0)
//         (i32.const 0)
//         br_if 0
//       )
//       drop
//     )
//    )
#[test]
fn test_br_if_block_with_arg_ok() {
    let keep = Some((ValueType::I32, 0));
    let program =
        vec![constant(0).0, constant(0).0, br_if(0, 0, keep, 3).0, drop_top().0, ret().0];
    let steps = vec![
        (0, TOP, constant(0)),
        (1, TOP - 1, constant(0)),
        (2, TOP - 2, br_if(0, 0, keep, 3)),
        (3, TOP - 1, drop_top()),
        (4, TOP, ret()),
    ];
    let synthesis = run_test_circuit(program, steps);
    let rest: Vec<u32> = synthesis.etable.entries.rows.iter().map(|r| r.rest_mops).collect();
    assert_eq!(rest, vec![2, 1, 0, 0, 0]);
}

// (module
//     (func (export "test")
//       (block
//         (block
//           (i32.const 0)
//           (i32.const 0)
//           (i32.const 0)
//           br_if 1
//           drop
//           drop
//         )
//       )
//     )
//    )
#[test]
fn test_br_if_block_with_drop_ok() {
    let program = vec![
        constant(0).0,
        constant(0).0,
        constant(0).0,
        br_if(0, 2, None, 6).0,
        drop_top().0,
        drop_top().0,
        ret().0,
    ];
    let steps = vec![
        (0, TOP, constant(0)),
        (1, TOP - 1, constant(0)),
        (2, TOP - 2, constant(0)),
        (3, TOP - 3, br_if(0, 2, None, 6)),
        (4, TOP - 2, drop_top()),
        (5, TOP - 1, drop_top()),
        (6, TOP, ret()),
    ];
    let synthesis = run_test_circuit(program, steps);
    assert_eq!(synthesis.etable.entries.rows.len(), 7);
    assert_eq!(synthesis.memory_writing_table.0.len(), 3);
}
