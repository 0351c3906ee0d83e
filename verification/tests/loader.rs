use zkwasm::continuation::slice::SliceError;
use zkwasm::loader::check_zkmain_exists;
use zkwasm::loader::compute_rows_for_steps;
use zkwasm::loader::err::LoadError;
use zkwasm::loader::err::PreCheckErr;
use zkwasm::loader::err::VerificationFailure;
use zkwasm::loader::precheck_image;
use zkwasm::loader::same_bytes;
use zkwasm::loader::verify_image_commitment;
use zkwasm::loader::ExecutionArg;
use zkwasm::loader::ExecutionReturn;
use zkwasm::loader::ExportEntry;
use zkwasm::loader::ExportKind;
use zkwasm::loader::NamedColumn;
use zkwasm::loader::ZkWasmLoader;
use zkwasm::loader::ENTRY;
use zkwasm::loader::IMAGE_COL_NAME;
use zkwasm::runtime::wasmi_interpreter::ExecutionResult;
use zkwasm::specs::configure_table::ConfigureTable;
use zkwasm::specs::etable::EventTable;
use zkwasm::specs::etable::EventTableEntry;
use zkwasm::specs::imtable::InitMemoryTable;
use zkwasm::specs::itable::InstructionTableEntry;
use zkwasm::specs::itable::Opcode;
use zkwasm::specs::jtable::JumpTable;
use zkwasm::specs::mtable::MTable;
use zkwasm::specs::state::InitializationState;
use zkwasm::specs::step::StepInfo;
use zkwasm::specs::tables::CompilationTable;
use zkwasm::specs::tables::ExecutionTable;
use zkwasm::specs::tables::Tables;

const HEADER: [u8; 8] = [0x00, 0x61, 0x73, 0x6d, 0x01, 0x00, 0x00, 0x00];

/// `(module (func (export NAME)))`
fn module_exporting_function(name: &str) -> Vec<u8> {
    let mut image = HEADER.to_vec();
    image.extend([0x01, 0x04, 0x01, 0x60, 0x00, 0x00]);
    image.extend([0x03, 0x02, 0x01, 0x00]);
    image.extend([0x07, name.len() as u8 + 4, 0x01, name.len() as u8]);
    image.extend(name.as_bytes());
    image.extend([0x00, 0x00]);
    image.extend([0x0a, 0x04, 0x01, 0x02, 0x00, 0x0b]);
    image
}

/// `(module (memory (export NAME) 1))`
fn module_exporting_memory(name: &str) -> Vec<u8> {
    let mut image = HEADER.to_vec();
    image.extend([0x05, 0x03, 0x01, 0x00, 0x01]);
    image.extend([0x07, name.len() as u8 + 4, 0x01, name.len() as u8]);
    image.extend(name.as_bytes());
    image.extend([0x02, 0x00]);
    image
}

#[test]
fn trivial_module_passes_the_precheck() {
    let image = module_exporting_function("zkmain");
    assert_eq!(precheck_image(&image), Ok(()));
    let loader = ZkWasmLoader::new(18, image.clone(), vec![]).unwrap();
    assert_eq!(loader.k, 18);
    assert_eq!(loader.k(), 18);
    assert_eq!(loader.image(), &image);
    assert_eq!(loader.precheck(), Ok(()));
    assert!(loader.phantom_functions().is_empty());
}

#[test]
fn module_without_entry_export_is_refused() {
    let other = module_exporting_function("main");
    assert_eq!(precheck_image(&other), Err(LoadError::PreCheck(PreCheckErr::ZkmainNotExists)));
    assert_eq!(
        ZkWasmLoader::new(18, other, vec![]).err(),
        Some(LoadError::PreCheck(PreCheckErr::ZkmainNotExists))
    );
    // A module without an export section, and one whose export section is empty.
    let no_section = HEADER.to_vec();
    assert_eq!(precheck_image(&no_section), Err(LoadError::PreCheck(PreCheckErr::ZkmainNotExists)));
    let mut empty_section = HEADER.to_vec();
    empty_section.extend([0x07, 0x01, 0x00]);
    assert_eq!(precheck_image(&empty_section), Err(LoadError::PreCheck(PreCheckErr::ZkmainNotExists)));
}

#[test]
fn entry_export_that_is_no_function_is_refused() {
    let image = module_exporting_memory("zkmain");
    assert_eq!(precheck_image(&image), Err(LoadError::PreCheck(PreCheckErr::ZkmainIsNotFunction)));
    assert_eq!(
        ZkWasmLoader::new(18, image, vec![]).err(),
        Some(LoadError::PreCheck(PreCheckErr::ZkmainIsNotFunction))
    );
}

#[test]
fn bytes_that_are_no_module_are_refused() {
    assert_eq!(precheck_image(&[]), Err(LoadError::InvalidImage));
    assert_eq!(precheck_image(b"zkmain"), Err(LoadError::InvalidImage));
    let mut truncated = module_exporting_function("zkmain");
    truncated.truncate(20);
    assert_eq!(precheck_image(&truncated), Err(LoadError::InvalidImage));
    assert_eq!(ZkWasmLoader::new(18, vec![1, 2, 3], vec![]).err(), Some(LoadError::InvalidImage));
}

fn export(name: &str, kind: ExportKind) -> ExportEntry {
    ExportEntry { name: name.to_string(), kind }
}

#[test]
fn first_export_under_the_entry_name_decides() {
    assert_eq!(ENTRY, "zkmain");
    assert_eq!(check_zkmain_exists(&vec![]), Err(PreCheckErr::ZkmainNotExists));
    assert_eq!(
        check_zkmain_exists(&vec![export("memory", ExportKind::Memory(0)), export("zkmain", ExportKind::Function(4))]),
        Ok(())
    );
    assert_eq!(
        check_zkmain_exists(&vec![export("zkmain", ExportKind::Global(0)), export("zkmain", ExportKind::Function(4))]),
        Err(PreCheckErr::ZkmainIsNotFunction)
    );
    assert_eq!(
        check_zkmain_exists(&vec![export("zkmain", ExportKind::Table(0))]),
        Err(PreCheckErr::ZkmainIsNotFunction)
    );
    assert_eq!(
        check_zkmain_exists(&vec![export("zkmain2", ExportKind::Function(0)), export("Zkmain", ExportKind::Function(0))]),
        Err(PreCheckErr::ZkmainNotExists)
    );
}

#[test]
fn errors_say_what_is_wrong() {
    assert_eq!(PreCheckErr::ZkmainNotExists.message(), "Zkmain does not exist");
    assert_eq!(PreCheckErr::ZkmainIsNotFunction.message(), "Zkmain is not a function");
    assert_eq!(
        LoadError::PreCheck(PreCheckErr::ZkmainNotExists).message(),
        "PreCheck error: Zkmain does not exist"
    );
    assert_eq!(LoadError::InvalidImage.message(), "Invalid wasm image");
}

#[test]
fn slice_capability_is_what_fits_the_rows() {
    let loader = |k| ZkWasmLoader::new(k, module_exporting_function("zkmain"), vec![]).unwrap();
    assert_eq!(loader(18).compute_slice_capability(), 65486);
    assert_eq!(loader(22).compute_slice_capability(), (4194304 - 200) / 4);
    assert_eq!(loader(8).compute_slice_capability(), 14);
    assert_eq!(loader(10).compute_slice_capability(), 206);
}

fn compilation() -> CompilationTable {
    CompilationTable {
        itable: vec![InstructionTableEntry { fid: 0, iid: 0, opcode: Opcode::Return { drop: 0, keep: None } }],
        imtable: InitMemoryTable::default(),
        elem_table: vec![],
        configure_table: ConfigureTable { init_memory_pages: 1, maximal_memory_pages: 8 },
        static_jtable: vec![],
        fid_of_entry: 0,
        initialization_state: InitializationState {
            eid: 1,
            fid: 0,
            iid: 0,
            frame_id: 0,
            sp: 4095,
            host_public_inputs: 1,
            context_in_index: 1,
            context_out_index: 1,
            external_host_call_call_index: 1,
            initial_memory_pages: 1,
            maximal_memory_pages: 8,
            jops: None,
        },
    }
}

#[test]
fn circuit_without_witness_has_the_tables_of_the_module_and_no_run() {
    let loader = ZkWasmLoader::new(18, module_exporting_function("zkmain"), vec![]).unwrap();
    let tables = loader.circuit_without_witness(compilation(), true);
    assert_eq!(tables.compilation_tables, compilation());
    assert_eq!(tables.post_image_table, compilation());
    assert_eq!(tables.execution_tables, ExecutionTable::default());
    assert!(tables.is_last_slice);
    assert!(!loader.circuit_without_witness(compilation(), false).is_last_slice);
}

#[test]
fn loader_slices_a_run_by_its_capability() {
    let loader = ZkWasmLoader::new(8, module_exporting_function("zkmain"), vec![]).unwrap();
    let events: Vec<EventTableEntry> = (1..=30)
        .map(|eid| EventTableEntry {
            eid,
            sp: 4000,
            allocated_memory_pages: 1,
            last_jump_eid: 0,
            inst: InstructionTableEntry { fid: 0, iid: eid, opcode: Opcode::Drop },
            step_info: StepInfo::Drop,
        })
        .collect();
    let result = || ExecutionResult {
        tables: Tables {
            compilation_tables: compilation(),
            execution_tables: ExecutionTable {
                etable: EventTable::new(events.clone()),
                mtable: MTable::default(),
                jtable: JumpTable::default(),
            },
            post_image_table: compilation(),
            is_last_slice: true,
        },
        result: None,
        public_inputs_and_outputs: vec![],
        outputs: vec![],
    };
    let slices = loader.slice(result()).unwrap();
    assert_eq!(slices.capability(), 14);
    assert_eq!(slices.num_slices(), 3);
    let sizes: Vec<usize> =
        slices.collect().iter().map(|s| s.table.execution_tables.etable.entries().len()).collect();
    assert_eq!(sizes, vec![14, 14, 2]);

    let mut overflowing = result();
    overflowing.tables.execution_tables.etable.entries_mut()[29].eid = u32::MAX;
    assert_eq!(loader.slice(overflowing).err(), Some(SliceError::StateOverflow));
}

#[test]
fn execution_argument_and_return_hold_plain_values() {
    let arg = ExecutionArg {
        public_inputs: vec![133],
        private_inputs: vec![1, 2],
        context_inputs: vec![],
        context_outputs: vec![],
        output_dir: None,
        dump_table: false,
    };
    assert_eq!(arg.public_inputs, vec![133]);
    assert_eq!(arg.private_inputs.len(), 2);
    let ret = ExecutionReturn { context_output: vec![5] };
    assert_eq!(ret.context_output, vec![5]);
}

fn column(name: &str, index: u32) -> NamedColumn {
    NamedColumn { name: name.to_string(), index }
}

#[test]
fn proof_of_the_expected_program_is_accepted() {
    assert_eq!(IMAGE_COL_NAME, "img_col");
    let columns = vec![column("other", 0), column("img_col", 2)];
    let commitments = vec![vec![1u8], vec![2], vec![3, 4]];
    assert_eq!(verify_image_commitment(&columns, &commitments, &vec![3, 4]), Ok(()));
}

#[test]
fn proof_of_another_program_is_refused() {
    let columns = vec![column("other", 0), column("img_col", 2)];
    let commitments = vec![vec![1u8], vec![2], vec![3, 4]];
    assert_eq!(
        verify_image_commitment(&columns, &commitments, &vec![3, 5]),
        Err(VerificationFailure::ChecksumMismatch)
    );
    assert_eq!(
        verify_image_commitment(&columns, &commitments, &vec![3]),
        Err(VerificationFailure::ChecksumMismatch)
    );
}

#[test]
fn proof_without_image_column_is_refused() {
    let commitments = vec![vec![1u8]];
    assert_eq!(
        verify_image_commitment(&vec![column("other", 0)], &commitments, &vec![1]),
        Err(VerificationFailure::ImageColumnMissing)
    );
    assert_eq!(
        verify_image_commitment(&vec![column("img_col", 1)], &commitments, &vec![1]),
        Err(VerificationFailure::CommitmentMissing)
    );
}

#[test]
fn bytes_are_compared_one_by_one() {
    assert!(same_bytes(&vec![], &vec![]));
    assert!(same_bytes(&vec![1, 2, 3], &vec![1, 2, 3]));
    assert!(!same_bytes(&vec![1, 2, 3], &vec![1, 2, 4]));
    assert!(!same_bytes(&vec![1, 2, 3], &vec![1, 2]));
}

#[test]
fn slice_capability_is_known_only_for_sizes_a_circuit_can_have() {
    let loader = |k| ZkWasmLoader::new(k, module_exporting_function("zkmain"), vec![]).unwrap();
    assert_eq!(loader(18).try_compute_slice_capability(), Some(65486));
    assert_eq!(loader(8).try_compute_slice_capability(), Some(14));
    assert_eq!(loader(7).try_compute_slice_capability(), None);
    assert_eq!(loader(0).try_compute_slice_capability(), None);
    assert_eq!(loader(usize::BITS).try_compute_slice_capability(), None);
    assert_eq!(loader(u32::MAX).try_compute_slice_capability(), None);
    assert_eq!(
        loader(usize::BITS - 1).try_compute_slice_capability(),
        Some(((1usize << (usize::BITS - 1)) - 200) / 4)
    );
}

#[test]
fn rows_for_steps_are_all_rows_but_the_reserved_ones() {
    assert_eq!(compute_rows_for_steps(18), Some(262144 - 200));
    assert_eq!(compute_rows_for_steps(8), Some(56));
    assert_eq!(compute_rows_for_steps(7), None);
    assert_eq!(compute_rows_for_steps(0), None);
    assert_eq!(compute_rows_for_steps(31), Some((1u32 << 31) - 200));
    assert_eq!(compute_rows_for_steps(32), Some(u32::MAX - 199));
    assert_eq!(compute_rows_for_steps(33), None);
    assert_eq!(compute_rows_for_steps(u32::MAX), None);
}
