//! Continuation: one long execution proved as a chain of slices.

pub mod consistency;
pub mod progress;
pub mod slice;
