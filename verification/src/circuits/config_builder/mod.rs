//! What single opcodes put into the cells that are their own.

pub mod op_br_if;
