//! Processes: to the memory core a process is only an integer tag used
//! for frame ownership, plus its own translation structures.

use crate::mem::paging::PageTable;
use vstd::prelude::*;

verus! {

/// Per-process bookkeeping context.
pub struct ProcContext {}

/// A simulated process: its identifier and its page table.
pub struct Process {
    pub id: usize,
    pub ctxt: ProcContext,
    pub pt: PageTable,
}

} // verus!
