//! The tables of a compiled module, the tables of a run, and the two put
//! together for one slice.

use vstd::prelude::*;
use crate::specs::configure_table::ConfigureTable;
use crate::specs::etable::EventTable;
use crate::specs::etable::EventTableEntry;
use crate::specs::imtable::InitMemoryTable;
use crate::specs::imtable::InitMemoryTableEntry;
use crate::specs::itable::InstructionTableEntry;
use crate::specs::jtable::JumpTable;
use crate::specs::jtable::JumpTableEntry;
use crate::specs::jtable::StaticFrameEntry;
use crate::specs::mtable::MTable;
use crate::specs::mtable::MemoryTableEntry;
use crate::specs::state::InitializationState;

verus! {

/// One slot of a function table: the function that an indirect call through
/// `offset` reaches.
#[derive(Clone, Copy, Debug, PartialEq, Eq, Structural, Hash)]
pub struct ElemEntry {
    pub table_idx: u32,
    pub type_idx: u32,
    pub offset: u32,
    pub func_idx: u32,
}

/// What is known of a program before it runs, together with the state a
/// slice of it starts from.
#[derive(Debug, PartialEq, Eq)]
pub struct CompilationTable {
    pub itable: Vec<InstructionTableEntry>,
    pub imtable: InitMemoryTable,
    pub elem_table: Vec<ElemEntry>,
    pub configure_table: ConfigureTable,
    pub static_jtable: Vec<StaticFrameEntry>,
    pub fid_of_entry: u32,
    pub initialization_state: InitializationState<u32>,
}

/// A `CompilationTable` as a value.
pub ghost struct CompilationTableView {
    pub itable: Seq<InstructionTableEntry>,
    pub imtable: Seq<InitMemoryTableEntry>,
    pub elem_table: Seq<ElemEntry>,
    pub configure_table: ConfigureTable,
    pub static_jtable: Seq<StaticFrameEntry>,
    pub fid_of_entry: u32,
    pub initialization_state: InitializationState<u32>,
}

impl View for CompilationTable {
    type V = CompilationTableView;

    open spec fn view(&self) -> CompilationTableView {
        CompilationTableView {
            itable: self.itable@,
            imtable: self.imtable@,
            elem_table: self.elem_table@,
            configure_table: self.configure_table,
            static_jtable: self.static_jtable@,
            fid_of_entry: self.fid_of_entry,
            initialization_state: self.initialization_state,
        }
    }
}

impl Clone for CompilationTable {
    fn clone(&self) -> (r: Self)
        ensures
            r@ == self@,
    {
        CompilationTable {
            itable: self.itable.clone(),
            imtable: self.imtable.clone(),
            elem_table: self.elem_table.clone(),
            configure_table: self.configure_table,
            static_jtable: self.static_jtable.clone(),
            fid_of_entry: self.fid_of_entry,
            initialization_state: self.initialization_state,
        }
    }
}

/// What a run, or a slice of it, recorded.
#[derive(Debug, PartialEq, Eq)]
pub struct ExecutionTable {
    pub etable: EventTable,
    pub mtable: MTable,
    pub jtable: JumpTable,
}

/// An `ExecutionTable` as a value.
pub ghost struct ExecutionTableView {
    pub etable: Seq<EventTableEntry>,
    pub mtable: Seq<MemoryTableEntry>,
    pub jtable: Seq<JumpTableEntry>,
}

impl View for ExecutionTable {
    type V = ExecutionTableView;

    open spec fn view(&self) -> ExecutionTableView {
        ExecutionTableView { etable: self.etable@, mtable: self.mtable@, jtable: self.jtable@ }
    }
}

impl Default for ExecutionTable {
    fn default() -> (r: Self)
        ensures
            r@.etable == Seq::<EventTableEntry>::empty(),
            r@.mtable == Seq::<MemoryTableEntry>::empty(),
            r@.jtable == Seq::<JumpTableEntry>::empty(),
    {
        ExecutionTable {
            etable: EventTable::default(),
            mtable: MTable::default(),
            jtable: JumpTable::default(),
        }
    }
}

impl Clone for ExecutionTable {
    fn clone(&self) -> (r: Self)
        ensures
            r@ == self@,
    {
        ExecutionTable {
            etable: self.etable.clone(),
            mtable: self.mtable.clone(),
            jtable: self.jtable.clone(),
        }
    }
}

/// What the circuit of one slice is built from. `post_image_table` is the
/// compilation table as it stands at the end of the slice: the next slice
/// starts from it.
#[derive(Debug, PartialEq, Eq)]
pub struct Tables {
    pub compilation_tables: CompilationTable,
    pub execution_tables: ExecutionTable,
    pub post_image_table: CompilationTable,
    pub is_last_slice: bool,
}

/// `Tables` as a value.
pub ghost struct TablesView {
    pub compilation_tables: CompilationTableView,
    pub execution_tables: ExecutionTableView,
    pub post_image_table: CompilationTableView,
    pub is_last_slice: bool,
}

impl View for Tables {
    type V = TablesView;

    open spec fn view(&self) -> TablesView {
        TablesView {
            compilation_tables: self.compilation_tables@,
            execution_tables: self.execution_tables@,
            post_image_table: self.post_image_table@,
            is_last_slice: self.is_last_slice,
        }
    }
}

impl Clone for Tables {
    fn clone(&self) -> (r: Self)
        ensures
            r@ == self@,
    {
        Tables {
            compilation_tables: self.compilation_tables.clone(),
            execution_tables: self.execution_tables.clone(),
            post_image_table: self.post_image_table.clone(),
            is_last_slice: self.is_last_slice,
        }
    }
}

} // verus!
