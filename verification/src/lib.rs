//! A small configurable memory-management-unit simulator: virtual-address
//! decomposition, multi-level page-table translation, physical frame
//! allocation, a bounded stack region, and a fault taxonomy.

pub mod ext;
pub mod fault;
pub mod lang;
pub mod mem;
pub mod paging;
pub mod process;

use crate::mem::config::MemContext;
use crate::mem::paging::PageTable;
use crate::mem::Memory;
use crate::process::{ProcContext, Process};
use vstd::prelude::*;

verus! {

/// The running processes, in creation order.
pub type ProcessList = Vec<Process>;

/// The whole simulated machine: its memory bank and its processes.
pub struct Machine<'a> {
    pub id_c: usize,
    pub mem: Memory<'a>,
    pub processes: ProcessList,
}

impl<'a> Machine<'a> {
    /// Builds a machine over the given memory context, with a fresh
    /// bank and no processes.
    pub fn new(ctxt: &'a MemContext) -> (m: Machine<'a>)
        requires
            ctxt.wf(),
        ensures
            m.mem.wf(),
            m.mem.context == ctxt,
            m.id_c == 0,
            m.processes@.len() == 0,
            m.mem.mmu.allocations@ == Map::<u64, mem::MemBlob>::empty(),
            m.mem.ram.stack.sz == 0,
    {
        let mem = Memory::new(ctxt);
        Machine { id_c: 0, processes: Vec::new(), mem }
    }

    /// The first process carrying the given identifier, in creation
    /// order, if any does.
    pub fn get_process(&self, id: usize) -> (r: Option<&Process>)
        ensures
            match r {
                Some(p) => exists|i: int|
                    {
                        &&& 0 <= i < self.processes@.len()
                        &&& self.processes@[i].id == id
                        &&& *p == self.processes@[i]
                        &&& forall|j: int| 0 <= j < i ==> self.processes@[j].id != id
                    },
                None => forall|i: int|
                    0 <= i < self.processes@.len() ==> self.processes@[i].id != id,
            },
    {
        let mut i: usize = 0;
        let n = self.processes.len();
        while i < n
            invariant
                n == self.processes@.len(),
                i <= n,
                forall|j: int| 0 <= j < i ==> self.processes@[j].id != id,
            decreases n - i,
        {
            if self.processes[i].id == id {
                return Some(&self.processes[i]);
            }
            i = i + 1;
        }
        None
    }

    /// Creates a fresh process under the next identifier, with an empty
    /// page table sized to the configured frame count.
    pub fn create_process(&mut self)
        requires
            old(self).id_c < usize::MAX,
        ensures
            final(self).id_c == old(self).id_c + 1,
            final(self).mem == old(self).mem,
            final(self).processes@.len() == old(self).processes@.len() + 1,
            forall|j: int|
                0 <= j < old(self).processes@.len() ==> final(self).processes@[j] == old(self).processes@[j],
            final(self).processes@.last().id == old(self).id_c,
            final(self).processes@.last().pt@.len() == old(self).mem.context.page_count,
            forall|k: int|
                0 <= k < old(self).mem.context.page_count ==> final(self).processes@.last().pt@[k] is None,
    {
        let p = Process {
            id: self.id_c,
            ctxt: ProcContext {  },
            pt: PageTable::new_init(self.mem.context.page_count),
        };
        self.processes.push(p);
        self.id_c = self.id_c + 1;
    }

    /// Registers an externally built process.
    pub fn add_process(&mut self, new: Process)
        ensures
            final(self).processes@.len() == old(self).processes@.len() + 1,
            forall|j: int|
                0 <= j < old(self).processes@.len() ==> final(self).processes@[j] == old(self).processes@[j],
            final(self).processes@.last() == new,
            final(self).id_c == old(self).id_c,
            final(self).mem == old(self).mem,
    {
        self.processes.push(new);
    }

    /// Drops the process at position `id` of the list; `None` and no
    /// change when no such position exists.
    pub fn kill_process(&mut self, id: usize) -> (r: Option<()>)
        ensures
            (id as int) < old(self).processes@.len() ==> r == Some(()) && final(self).processes@
                == old(self).processes@.remove(id as int),
            (id as int) >= old(self).processes@.len() ==> r is None && final(self).processes@
                == old(self).processes@,
            final(self).id_c == old(self).id_c,
            final(self).mem == old(self).mem,
    {
        if id >= self.processes.len() {
            return None;
        }
        self.processes.remove(id);
        Some(())
    }

    /// The memory context the machine runs under.
    pub fn mem_context(&self) -> (r: &MemContext)
        ensures
            r == self.mem.context,
    {
        self.mem.context
    }
}

} // verus!
