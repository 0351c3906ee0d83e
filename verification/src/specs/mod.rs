//! The trace data model: the static tables of a compiled module and the
//! dynamic tables that one run of it fills.

pub mod configure_table;
pub mod etable;

pub mod host_function;
pub mod imtable;
pub mod itable;
pub mod jtable;
pub mod state;
pub mod step;
pub mod tables;



pub mod mtable;



