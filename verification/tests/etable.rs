use zkwasm::specs::etable::EventTable;
use zkwasm::specs::etable::EventTableEntry;
use zkwasm::specs::etable::RestJops;
use zkwasm::specs::etable::RestMops;
use zkwasm::specs::host_function::HostPlugin;
use zkwasm::specs::host_function::HOST_INPUT_OP_INPUT;
use zkwasm::specs::itable::InstructionTableEntry;
use zkwasm::specs::itable::Opcode;
use zkwasm::specs::mtable::ValueType;
use zkwasm::specs::step::StepInfo;
use zkwasm::specs::step::TypedValue;

fn drop_entry(eid: u32) -> EventTableEntry {
    EventTableEntry {
        eid,
        sp: 100,
        allocated_memory_pages: 1,
        last_jump_eid: 0,
        inst: InstructionTableEntry { fid: 0, iid: eid, opcode: Opcode::Drop },
        step_info: StepInfo::Drop,
    }
}

fn host_entry(eid: u32, plugin: HostPlugin) -> EventTableEntry {
    EventTableEntry {
        eid,
        sp: 100,
        allocated_memory_pages: 1,
        last_jump_eid: 0,
        inst: InstructionTableEntry {
            fid: 0,
            iid: eid,
            opcode: Opcode::InternalHostCall {
                plugin,
                function_index: 0,
                op_index_in_plugin: HOST_INPUT_OP_INPUT,
            },
        },
        step_info: StepInfo::CallHost {
            plugin,
            op_index_in_plugin: HOST_INPUT_OP_INPUT,
            arg: Some(TypedValue { vtype: ValueType::I32, value: 1 }),
            ret: Some(TypedValue { vtype: ValueType::I64, value: 7 }),
        },
    }
}

#[test]
fn new_table_has_no_latest_eid() {
    let table = EventTable::new(vec![]);
    assert_eq!(table.get_latest_eid(), 0);
    assert!(table.entries().is_empty());
}

#[test]
fn new_table_keeps_entries_in_order() {
    let table = EventTable::new(vec![drop_entry(1), drop_entry(2), drop_entry(3)]);
    let eids: Vec<u32> = table.entries().iter().map(|e| e.eid).collect();
    assert_eq!(eids, vec![1, 2, 3]);
    assert_eq!(table.get_latest_eid(), 0);
}

#[test]
fn entries_mut_changes_the_table_and_keeps_latest_eid() {
    let mut table = EventTable::new(vec![drop_entry(1)]);
    table.latest_eid = 1;
    table.entries_mut().push(drop_entry(2));
    assert_eq!(table.entries().len(), 2);
    assert_eq!(table.entries()[1], drop_entry(2));
    assert_eq!(table.get_latest_eid(), 1);
}

#[test]
fn push_hands_out_the_next_eid() {
    let mut table = EventTable::default();
    let first = table.push(
        10,
        1,
        0,
        InstructionTableEntry { fid: 0, iid: 0, opcode: Opcode::Drop },
        StepInfo::Drop,
    );
    let second = table.push(
        11,
        1,
        0,
        InstructionTableEntry { fid: 0, iid: 1, opcode: Opcode::Drop },
        StepInfo::Drop,
    );
    assert_eq!(first, 1);
    assert_eq!(second, 2);
    assert_eq!(table.get_latest_eid(), 2);
    assert_eq!(table.entries()[0].eid, 1);
    assert_eq!(table.entries()[1].eid, 2);
    assert_eq!(table.entries()[1].sp, 11);
}

#[test]
fn filter_foreign_entries_keeps_the_calls_of_one_plugin() {
    let table = EventTable::new(vec![
        drop_entry(1),
        host_entry(2, HostPlugin::HostInput),
        host_entry(3, HostPlugin::Context),
        drop_entry(4),
        host_entry(5, HostPlugin::HostInput),
    ]);
    let inputs = table.filter_foreign_entries(HostPlugin::HostInput);
    assert_eq!(inputs, vec![host_entry(2, HostPlugin::HostInput), host_entry(5, HostPlugin::HostInput)]);
    let context = table.filter_foreign_entries(HostPlugin::Context);
    assert_eq!(context, vec![host_entry(3, HostPlugin::Context)]);
    assert!(table.filter_foreign_entries(HostPlugin::Require).is_empty());
    assert_eq!(table.entries().len(), 5);
}

#[test]
fn cloned_table_equals_its_source() {
    let mut table = EventTable::new(vec![drop_entry(1), drop_entry(2)]);
    table.latest_eid = 2;
    let copy = table.clone();
    assert_eq!(copy, table);
}

#[test]
fn rest_mops_hands_out_from_the_first_row() {
    let mut rest = RestMops::new(vec![5, 3, 3, 0]);
    assert_eq!(rest.next(), Some(5));
    assert_eq!(rest.next(), Some(3));
    assert_eq!(rest.next(), Some(3));
    assert_eq!(rest.next(), Some(0));
    assert_eq!(rest.next(), None);
    assert_eq!(rest.next(), None);
}

#[test]
fn rest_jops_hands_out_from_the_first_row() {
    let mut rest = RestJops::new(vec![2, 1]);
    assert_eq!(rest.next(), Some(2));
    assert_eq!(rest.next(), Some(1));
    assert_eq!(rest.next(), None);
}

#[test]
fn rest_ops_of_nothing_are_exhausted() {
    assert_eq!(RestMops::new(vec![]).next(), None);
    assert_eq!(RestJops::new(vec![]).next(), None);
}
