//! Figures on a run: what the steps of each opcode class cost.

pub mod instruction_statistic;
