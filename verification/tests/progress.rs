use zkwasm::circuits::utils::table_entry::MemoryWritingTable;
use zkwasm::continuation::progress::Phase;
use zkwasm::continuation::progress::Progress;
use zkwasm::continuation::progress::ProgressError;
use zkwasm::continuation::progress::SliceStage;
use zkwasm::specs::mtable::AccessType;
use zkwasm::specs::mtable::LocationType;
use zkwasm::specs::mtable::MemoryTableEntry;
use zkwasm::specs::mtable::VarType;

fn sliced(total: usize) -> Progress {
    let mut progress = Progress::new();
    progress.start_tracing().unwrap();
    progress.sliced(total).unwrap();
    progress
}

#[test]
fn execution_goes_from_tracing_to_slices() {
    let mut progress = Progress::new();
    assert_eq!(progress.phase(), Phase::NotStarted);
    assert_eq!(progress.stage(0), None);
    assert_eq!(progress.sliced(2), Err(ProgressError::WrongPhase));
    assert_eq!(progress.advance(0), Err(ProgressError::WrongPhase));
    assert_eq!(progress.start_tracing(), Ok(()));
    assert_eq!(progress.phase(), Phase::Tracing);
    assert_eq!(progress.start_tracing(), Err(ProgressError::WrongPhase));
    assert_eq!(progress.sliced(0), Err(ProgressError::NoSlices));
    assert_eq!(progress.phase(), Phase::Tracing);
    assert_eq!(progress.sliced(3), Ok(()));
    assert_eq!(progress.phase(), Phase::Sliced);
    assert_eq!(progress.stage(0), Some(SliceStage::Sliced));
    assert_eq!(progress.stage(2), Some(SliceStage::Sliced));
    assert_eq!(progress.stage(3), None);
    assert_eq!(progress.sliced(3), Err(ProgressError::WrongPhase));
}

#[test]
fn slice_goes_from_circuit_to_verified_proof() {
    let mut progress = sliced(2);
    assert_eq!(progress.advance(1), Ok(SliceStage::CircuitBuilt));
    assert_eq!(progress.advance(1), Ok(SliceStage::Proven));
    assert_eq!(progress.advance(1), Ok(SliceStage::Verified));
    assert_eq!(progress.advance(1), Err(ProgressError::WrongStage));
    assert_eq!(progress.stage(1), Some(SliceStage::Verified));
    assert_eq!(progress.stage(0), Some(SliceStage::Sliced));
    assert_eq!(progress.advance(2), Err(ProgressError::NoSuchSlice));
}

#[test]
fn execution_is_proved_when_all_slices_are_verified() {
    let mut progress = sliced(2);
    assert!(!progress.is_proved());
    for _ in 0..3 {
        progress.advance(0).unwrap();
    }
    assert!(!progress.is_proved());
    for _ in 0..2 {
        progress.advance(1).unwrap();
    }
    assert!(!progress.is_proved());
    progress.advance(1).unwrap();
    assert!(progress.is_proved());
    assert!(!Progress::new().is_proved());
}

#[test]
fn failure_of_a_slice_leaves_the_other_slices() {
    let mut progress = sliced(3);
    for _ in 0..3 {
        progress.advance(0).unwrap();
    }
    progress.advance(1).unwrap();
    progress.advance(1).unwrap();
    assert_eq!(progress.fail(1), Ok(()));
    assert_eq!(progress.stage(0), Some(SliceStage::Verified));
    assert_eq!(progress.stage(1), Some(SliceStage::Sliced));
    assert_eq!(progress.stage(2), Some(SliceStage::Sliced));
    assert_eq!(progress.fail(3), Err(ProgressError::NoSuchSlice));
    assert_eq!(Progress::new().fail(0), Err(ProgressError::WrongPhase));
    assert!(!progress.is_proved());
}

#[test]
fn only_the_last_slice_may_assert_the_outputs() {
    let progress = sliced(3);
    assert!(!progress.may_assert_outputs(0));
    assert!(!progress.may_assert_outputs(1));
    assert!(progress.may_assert_outputs(2));
    assert!(!progress.may_assert_outputs(3));
    assert!(!Progress::new().may_assert_outputs(0));
    assert!(sliced(1).may_assert_outputs(0));
}

fn write(eid: u32, ltype: LocationType, offset: u32, value: u64) -> MemoryTableEntry {
    MemoryTableEntry {
        eid,
        offset,
        ltype,
        atype: AccessType::Write,
        vtype: VarType::I64,
        is_mutable: true,
        value,
    }
}

#[test]
fn sorted_memory_writing_table_is_grouped_by_address_in_step_order() {
    let ops = vec![
        write(1, LocationType::Heap, 4, 10),
        write(2, LocationType::Stack, 9, 20),
        write(3, LocationType::Global, 0, 30),
        write(4, LocationType::Stack, 8, 40),
        write(5, LocationType::Heap, 4, 50),
        write(6, LocationType::Stack, 9, 60),
        write(7, LocationType::Heap, 1, 70),
    ];
    let table = MemoryWritingTable::new(&ops, 100).sorted();
    let got: Vec<(usize, u32, u32)> = table.0.iter().map(|w| (w.index, w.entry.eid, w.end_eid)).collect();
    assert_eq!(
        got,
        vec![(0, 4, 100), (1, 2, 6), (2, 6, 100), (3, 7, 100), (4, 1, 5), (5, 5, 100), (6, 3, 100)]
    );
    let unsorted = MemoryWritingTable::new(&ops, 100);
    let eids: Vec<u32> = unsorted.0.iter().map(|w| w.entry.eid).collect();
    assert_eq!(eids, vec![1, 2, 3, 4, 5, 6, 7]);
    assert!(MemoryWritingTable::new(&vec![], 100).sorted().0.is_empty());
}
