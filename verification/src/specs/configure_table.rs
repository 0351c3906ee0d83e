//! The memory limits a module declares.

use vstd::prelude::*;

verus! {

#[derive(Clone, Copy, Debug, PartialEq, Eq, Structural, Hash)]
pub struct ConfigureTable {
    pub init_memory_pages: u32,
    pub maximal_memory_pages: u32,
}

impl Default for ConfigureTable {
    fn default() -> (r: Self)
        ensures
            r.init_memory_pages == 0,
            r.maximal_memory_pages == 0,
    {
        ConfigureTable { init_memory_pages: 0, maximal_memory_pages: 0 }
    }
}

} // verus!
