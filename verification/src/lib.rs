//! Execution traces of WebAssembly programs, arranged for proving.
//!
//! - `specs`: the trace data model, the tables of a compiled module and of
//!   a run.
//! - `runtime`: the tracer that records the steps an interpreter reports,
//!   and the memory accesses derived from every step.
//! - `continuation`: the partition of a long run into slices, the state at
//!   every boundary, and the progress of the proofs of the slices.
//! - `circuits`: memory consistency, the memory writing table, and the
//!   cells of the event table of one slice.
//! - `loader`: the checks on a module before it runs, and the check of a
//!   proof against the program image.
//! - `config`, `names`: the record of a configuration, the digests that tie
//!   artifacts to it, and the names of its files.
//! - `profile`: figures on a run by opcode class.

pub mod circuits;
pub mod config;
pub mod continuation;
pub mod loader;
pub mod names;
pub mod profile;
pub mod runtime;
pub mod specs;
