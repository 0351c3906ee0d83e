//! The witness of the circuit, as plain values: what each cell of the event
//! table holds for a given slice, and what the tables around it are built
//! from.

use vstd::prelude::*;
use crate::specs::itable::InstructionTableEntry;
use crate::specs::itable::OpcodeClass;
use crate::specs::itable::OPCODE_CLASS_COUNT;
use crate::specs::tables::CompilationTable;
use crate::specs::tables::ExecutionTable;
use crate::specs::tables::Tables;

pub mod config_builder;
pub mod etable;
pub mod mtable;
pub mod test_circuit;
pub mod utils;

verus! {

/// What the shape of the circuit depends on. It is derived once from the
/// compilation table and handed to whatever builds the circuit.
#[derive(Debug, PartialEq, Eq)]
pub struct CircuitConfigure {
    pub initial_memory_pages: u32,
    pub maximal_memory_pages: u32,
    /// The first heap block from which on the initial memory is zero.
    pub first_consecutive_zero_memory_offset: u64,
    /// For every opcode class, at its position, whether the program has an
    /// instruction of the class.
    pub opcode_selector: Vec<bool>,
}

/// Whether one of the instructions is of the class.
pub open spec fn has_class(itable: Seq<InstructionTableEntry>, class: OpcodeClass) -> bool {
    exists|i: int| 0 <= i < itable.len() && (#[trigger] itable[i]).opcode.spec_class() == class
}

/// Whether `configure` is what the shape of the circuit of `table` depends
/// on.
pub open spec fn configures(configure: CircuitConfigure, table: CompilationTable) -> bool {
    &&& configure.initial_memory_pages == table.configure_table.init_memory_pages
    &&& configure.maximal_memory_pages == table.configure_table.maximal_memory_pages
    &&& configure.first_consecutive_zero_memory_offset
        == crate::specs::imtable::first_zero_block(table.imtable@)
    &&& configure.opcode_selector@.len() == OPCODE_CLASS_COUNT
    &&& forall|class: OpcodeClass| #[trigger]
        configure.opcode_selector@[class.spec_index() as int] == has_class(table.itable@, class)
}

impl Clone for CircuitConfigure {
    fn clone(&self) -> (r: Self)
        ensures
            r.same_as(*self),
    {
        CircuitConfigure {
            initial_memory_pages: self.initial_memory_pages,
            maximal_memory_pages: self.maximal_memory_pages,
            first_consecutive_zero_memory_offset: self.first_consecutive_zero_memory_offset,
            opcode_selector: self.opcode_selector.clone(),
        }
    }
}

impl CircuitConfigure {
    /// Whether two configurations hold the same.
    pub open spec fn same_as(self, other: CircuitConfigure) -> bool {
        &&& self.initial_memory_pages == other.initial_memory_pages
        &&& self.maximal_memory_pages == other.maximal_memory_pages
        &&& self.first_consecutive_zero_memory_offset == other.first_consecutive_zero_memory_offset
        &&& self.opcode_selector@ == other.opcode_selector@
    }

    /// Derives the configuration of the circuit from the compilation table.
    pub fn from_compilation_table(table: &CompilationTable) -> (r: Self)
        ensures
            configures(r, *table),
    {
        let mut opcode_selector: Vec<bool> = vec![false; OPCODE_CLASS_COUNT];
        let mut i: usize = 0;
        while i < table.itable.len()
            invariant
                i <= table.itable.len(),
                opcode_selector@.len() == OPCODE_CLASS_COUNT,
                forall|class: OpcodeClass| #[trigger]
                    opcode_selector@[class.spec_index() as int] == has_class(
                        table.itable@.take(i as int),
                        class,
                    ),
            decreases table.itable.len() - i,
        {
            let class = table.itable[i].opcode.class();
            let ghost before = opcode_selector@;
            opcode_selector.set(class.index(), true);
            proof {
                let shorter = table.itable@.take(i as int);
                let longer = table.itable@.take(i + 1);
                assert(longer[i as int].opcode.spec_class() == class);
                assert forall|other: OpcodeClass| #[trigger]
                    opcode_selector@[other.spec_index() as int] == has_class(longer, other) by {
                    crate::profile::instruction_statistic::lemma_index_injective(other, class);
                    assert(before[other.spec_index() as int] == has_class(shorter, other));
                    if has_class(shorter, other) {
                        let w = choose|w: int|
                            0 <= w < shorter.len() && (#[trigger] shorter[w]).opcode.spec_class()
                                == other;
                        assert(longer[w].opcode.spec_class() == other);
                    }
                    if has_class(longer, other) && other != class {
                        let w = choose|w: int|
                            0 <= w < longer.len() && (#[trigger] longer[w]).opcode.spec_class()
                                == other;
                        assert(shorter[w].opcode.spec_class() == other);
                    }
                }
            }
            i += 1;
        }
        proof {
            assert(table.itable@.take(i as int) =~= table.itable@);
        }
        CircuitConfigure {
            initial_memory_pages: table.configure_table.init_memory_pages,
            maximal_memory_pages: table.configure_table.maximal_memory_pages,
            first_consecutive_zero_memory_offset: table.imtable.first_consecutive_zero_memory(),
            opcode_selector,
        }
    }
}

/// The circuit of one slice: its tables and the configuration derived from
/// them.
#[derive(Debug, PartialEq, Eq)]
pub struct TestCircuit {
    pub tables: Tables,
    pub configure: CircuitConfigure,
}

impl TestCircuit {
    pub fn new(tables: Tables) -> (r: Self)
        ensures
            r.tables == tables,
            configures(r.configure, tables.compilation_tables),
    {
        let configure = CircuitConfigure::from_compilation_table(&tables.compilation_tables);
        TestCircuit { tables, configure }
    }

    /// The same circuit with no run in it: it has the shape of the circuit
    /// and no witness.
    pub fn without_witnesses(&self) -> (r: Self)
        ensures
            r.tables@.compilation_tables == self.tables@.compilation_tables,
            r.tables@.post_image_table == self.tables@.post_image_table,
            r.tables@.execution_tables.etable.len() == 0,
            r.tables@.execution_tables.mtable.len() == 0,
            r.tables@.execution_tables.jtable.len() == 0,
            r.tables.is_last_slice == self.tables.is_last_slice,
            r.configure.same_as(self.configure),
    {
        TestCircuit {
            tables: Tables {
                compilation_tables: self.tables.compilation_tables.clone(),
                execution_tables: ExecutionTable::default(),
                post_image_table: self.tables.post_image_table.clone(),
                is_last_slice: self.tables.is_last_slice,
            },
            configure: self.configure.clone(),
        }
    }
}

pub struct ZkWasmCircuitBuilder {
    pub tables: Tables,
    pub public_inputs_and_outputs: Vec<u64>,
}

impl ZkWasmCircuitBuilder {
    pub fn build_circuit(&self) -> (r: TestCircuit)
        ensures
            r.tables@ == self.tables@,
            configures(r.configure, r.tables.compilation_tables),
    {
        TestCircuit::new(self.tables.clone())
    }

    /// The public instance of the circuit: the public inputs and outputs of
    /// the run, in the order in which the guest read and wrote them.
    pub fn instances(&self) -> (r: Vec<u64>)
        ensures
            r@ == self.public_inputs_and_outputs@,
    {
        self.public_inputs_and_outputs.clone()
    }
}

} // verus!
