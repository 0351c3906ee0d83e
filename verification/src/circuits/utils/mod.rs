//! Values shared by the tables of the circuit.

pub mod bn;
pub mod step_status;
pub mod table_entry;
