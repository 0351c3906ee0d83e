//! Host functions as the trace sees them: which plugin serves a call and
//! which of the plugin's operations it is.

use vstd::prelude::*;

verus! {

/// The plugin that serves an internal host call.
#[derive(Clone, Copy, Debug, PartialEq, Eq, Structural, Hash)]
pub enum HostPlugin {
    HostInput,
    Context,
    Require,
    Log,
}

/// `wasm_input` within the `HostInput` plugin: reads the next public or
/// private input, by its argument.
pub const HOST_INPUT_OP_INPUT: u32 = 0;

/// `wasm_output` within the `HostInput` plugin: writes a public output.
pub const HOST_INPUT_OP_OUTPUT: u32 = 1;

/// `wasm_read_context` within the `Context` plugin.
pub const CONTEXT_OP_READ: u32 = 0;

/// `wasm_write_context` within the `Context` plugin.
pub const CONTEXT_OP_WRITE: u32 = 1;

/// Whether one step of an external host call hands an argument over or
/// takes the result back.
#[derive(Clone, Copy, Debug, PartialEq, Eq, Structural, Hash)]
pub enum ExternalHostCallSignature {
    Argument,
    Return,
}

} // verus!
