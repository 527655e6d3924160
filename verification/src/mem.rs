//! Memory structures: the simulated RAM bank, the stack region, the MMU's
//! frame pool with its allocation registry, and the surrounding
//! configuration types.

pub mod addr;
pub mod config;
pub mod paging;
pub mod stack;

use crate::fault::{Fault, FaultType};
use config::MemContext;
use paging::Page;
use std::collections::HashMap;
use vstd::arithmetic::div_mod::{
    lemma_fundamental_div_mod, lemma_mod_division_less_than_divisor, lemma_multiply_divide_lt,
};
use vstd::arithmetic::mul::lemma_mul_inequality;
use vstd::arithmetic::power2::{lemma2_to64, lemma_pow2_pos, lemma_pow2_strictly_increases, pow2};
use vstd::prelude::*;

verus! {

broadcast use vstd::std_specs::hash::group_hash_axioms;

/// The named address-geometry presets. A bit-mode fixes the address
/// width, the page size and the level geometry; it is selected once at
/// startup, never at build time.
#[derive(Clone, Copy, Debug, PartialEq, Eq, Structural)]
pub enum BitMode {
    Bit8,
    Bit16,
    Bit32,
    Bit64,
}

/// Classification of an address range: the reserved stack region or
/// neutral (heap-like) space.
#[derive(Clone, Copy, Debug, PartialEq, Eq, Structural)]
pub enum RegionType {
    Stack,
    Neutral,
}

/// A classified address range, applicable to virtual spaces and to
/// physical memory alike.
#[derive(Clone, Copy, Debug, PartialEq, Eq, Structural)]
pub struct MemRegion {
    pub start: u64,
    pub size: usize,
    pub typ: RegionType,
}

/// One allocation record: base address, region classification and byte
/// length.
#[derive(Clone, Copy, Debug, PartialEq, Eq, Structural)]
pub struct MemBlob(pub addr::Addr, pub RegionType, pub usize);

/// The bounded stack region: a growing pointer between a fixed base and
/// the base plus capacity; `sz` counts the bytes currently held.
#[derive(Clone, Copy, Debug, PartialEq, Eq, Structural)]
pub struct Stack {
    pub base: u64,
    pub sz: u64,
    pub sp: u64,
    pub cap: u64,
}

impl Stack {
    /// The stack pointer stays between the base and the capacity bound,
    /// and `sz` is the distance grown so far.
    pub open spec fn wf(self) -> bool {
        &&& self.base + self.cap <= u64::MAX
        &&& self.base <= self.sp <= self.base + self.cap
        &&& self.sz == self.sp - self.base
    }

    /// Whether one more push fits the capacity bound.
    pub open spec fn spec_push_allowed(self) -> bool {
        self.sp < self.base + self.cap
    }

    /// Whether a pop has anything to take.
    pub open spec fn spec_pop_allowed(self) -> bool {
        self.sp > self.base
    }

    /// The stack after `k` pushes, none popped.
    pub open spec fn spec_after_pushes(self, k: nat) -> Stack {
        Stack { base: self.base, cap: self.cap, sp: (self.sp + k) as u64, sz: (self.sz + k) as u64 }
    }

    /// Advances the stack pointer without a bound check; the caller must
    /// know the capacity is not yet reached.
    pub fn _push_sp(&mut self)
        requires
            old(self).wf(),
            old(self).spec_push_allowed(),
        ensures
            final(self).wf(),
            *final(self) == old(self).spec_after_pushes(1),
    {
        self.sp = self.sp + 1;
        self.sz = self.sz + 1;
    }

    /// Advances the stack pointer, failing with `StackOverflow` — and
    /// changing nothing — when the region is already at capacity.
    pub fn _push_sp_checked(&mut self) -> (r: Result<(), Fault>)
        requires
            old(self).wf(),
        ensures
            final(self).wf(),
            old(self).spec_push_allowed() ==> r == Ok::<(), Fault>(()) && *final(self) == old(
                self,
            ).spec_after_pushes(1),
            !old(self).spec_push_allowed() ==> r == Err::<(), Fault>(
                Fault { _type: FaultType::StackOverflow(old(self).sp) },
            ) && *final(self) == *old(self),
    {
        if self.sp >= self.base + self.cap {
            return Err(Fault::_from(FaultType::StackOverflow(self.sp)));
        }
        self.sp = self.sp + 1;
        self.sz = self.sz + 1;
        Ok(())
    }

    /// Retreats the stack pointer, failing with `Unrecoverable` — and
    /// changing nothing — when the stack is already empty.
    pub fn _pop_sp(&mut self) -> (r: Result<(), Fault>)
        requires
            old(self).wf(),
        ensures
            final(self).wf(),
            old(self).spec_pop_allowed() ==> r == Ok::<(), Fault>(()) && *final(self) == (Stack {
                sp: (old(self).sp - 1) as u64,
                sz: (old(self).sz - 1) as u64,
                ..*old(self)
            }),
            !old(self).spec_pop_allowed() ==> r == Err::<(), Fault>(
                Fault { _type: FaultType::Unrecoverable },
            ) && *final(self) == *old(self),
    {
        if self.sp <= self.base {
            return Err(Fault::_from(FaultType::Unrecoverable));
        }
        self.sp = self.sp - 1;
        self.sz = self.sz - 1;
        Ok(())
    }
}

/// Stack bound law: from an empty stack of capacity `C`, each of the
/// first `C` pushes is allowed and the `C+1`th is not, so exactly `C`
/// pushes succeed before `StackOverflow`; and a pop from the empty stack
/// has nothing to take, so it reports `Unrecoverable`.
pub proof fn lemma_stack_bound(s: Stack, k: nat)
    requires
        s.wf(),
        s.sp == s.base,
        k <= s.cap,
    ensures
        s.spec_after_pushes(k).wf(),
        k < s.cap ==> s.spec_after_pushes(k).spec_push_allowed(),
        k == s.cap ==> !s.spec_after_pushes(k).spec_push_allowed(),
        s.spec_after_pushes(k + 1) == s.spec_after_pushes(k).spec_after_pushes(1),
        !s.spec_pop_allowed(),
{
}

/// Physical memory: one bank of frames together with the stack region's
/// pointers.
#[derive(Debug)]
pub struct Ram {
    pub _in: Vec<Page>,
    pub stack: Stack,
}

impl Ram {
    /// Builds a bank of `cap` zeroed frames, frame `i` based at
    /// `i * page_size`, around the given stack region.
    pub fn new(cap: usize, page_size: u64, stack: Stack) -> (r: Ram)
        requires
            page_size * cap <= u64::MAX,
            page_size <= usize::MAX,
        ensures
            r.stack == stack,
            r._in@.len() == cap,
            forall|i: int|
                0 <= i < cap ==> {
                    &&& (#[trigger] r._in@[i]).addr == i * page_size
                    &&& r._in@[i].owner is None
                    &&& r._in@[i].data@.len() == page_size
                    &&& forall|j: int| 0 <= j < page_size ==> r._in@[i].data@[j] == 0
                },
    {
        let mut frames: Vec<Page> = Vec::new();
        let mut base: u64 = 0;
        let mut i: usize = 0;
        while i < cap
            invariant
                i <= cap,
                page_size * cap <= u64::MAX,
                page_size <= usize::MAX,
                base == i * page_size,
                frames@.len() == i,
                forall|k: int|
                    0 <= k < i ==> {
                        &&& (#[trigger] frames@[k]).addr == k * page_size
                        &&& frames@[k].owner is None
                        &&& frames@[k].data@.len() == page_size
                        &&& forall|j: int| 0 <= j < page_size ==> frames@[k].data@[j] == 0
                    },
            decreases cap - i,
        {
            proof {
                lemma_mul_inequality(i + 1, cap as int, page_size as int);
                vstd::arithmetic::mul::lemma_mul_is_distributive_add_other_way(
                    page_size as int,
                    i as int,
                    1,
                );
                vstd::arithmetic::mul::lemma_mul_is_commutative(i + 1, page_size as int);
                vstd::arithmetic::mul::lemma_mul_is_commutative(cap as int, page_size as int);
            }
            frames.push(Page::new(base, page_size as usize));
            base = base + page_size;
            i = i + 1;
        }
        Ram { _in: frames, stack }
    }
}

/// The memory-management unit's bookkeeping: the initial partition of
/// frames into free and used, and the allocation registry mapping each
/// allocated base address to its record.
#[derive(Debug)]
pub struct MMU {
    pub free_list: Vec<Page>,
    pub used_list: Vec<Page>,
    pub allocations: HashMap<u64, MemBlob>,
}

impl MMU {
    /// Builds the frame pool: every frame free and zero-filled, frame
    /// `i` based at `i * page_size`, nothing used, nothing allocated.
    pub fn new_init(ctxt: &MemContext) -> (m: MMU)
        requires
            ctxt.wf(),
        ensures
            m.free_list@.len() == ctxt.page_count,
            forall|i: int|
                0 <= i < ctxt.page_count ==> {
                    &&& (#[trigger] m.free_list@[i]).addr == i * ctxt.page_size
                    &&& m.free_list@[i].owner is None
                    &&& m.free_list@[i].data@.len() == ctxt.page_size
                    &&& forall|j: int| 0 <= j < ctxt.page_size ==> m.free_list@[i].data@[j] == 0
                },
            m.used_list@.len() == 0,
            m.allocations@ == Map::<u64, MemBlob>::empty(),
    {
        proof {
            lemma_page_size_fits(*ctxt);
        }
        let mut free_list: Vec<Page> = Vec::new();
        let mut base: u64 = 0;
        let mut i: usize = 0;
        while i < ctxt.page_count
            invariant
                ctxt.wf(),
                ctxt.page_size <= 0x10000,
                i <= ctxt.page_count,
                base == i * ctxt.page_size,
                free_list@.len() == i,
                forall|k: int|
                    0 <= k < i ==> {
                        &&& (#[trigger] free_list@[k]).addr == k * ctxt.page_size
                        &&& free_list@[k].owner is None
                        &&& free_list@[k].data@.len() == ctxt.page_size
                        &&& forall|j: int| 0 <= j < ctxt.page_size ==> free_list@[k].data@[j] == 0
                    },
            decreases ctxt.page_count - i,
        {
            proof {
                lemma_mul_inequality(i + 1, ctxt.page_count as int, ctxt.page_size as int);
                vstd::arithmetic::mul::lemma_mul_is_distributive_add_other_way(
                    ctxt.page_size as int,
                    i as int,
                    1,
                );
                vstd::arithmetic::mul::lemma_mul_is_commutative(i + 1, ctxt.page_size as int);
                vstd::arithmetic::mul::lemma_mul_is_commutative(
                    ctxt.page_count as int,
                    ctxt.page_size as int,
                );
            }
            free_list.push(Page::new(base, ctxt.page_size as usize));
            base = base + ctxt.page_size;
            i = i + 1;
        }
        MMU { free_list, used_list: Vec::new(), allocations: HashMap::new() }
    }
}

/// A mutable borrow of one frame of a bank.
fn frame_mut(frames: &mut Vec<Page>, i: usize) -> (p: &mut Page)
    requires
        i < old(frames)@.len(),
    ensures
        *p == old(frames)@[i as int],
        final(frames)@ == old(frames)@.update(i as int, *final(p)),
{
    &mut frames[i]
}

/// A RAM bank model: an allocation pool allied with the memory context
/// and an MMU.
#[derive(Debug)]
pub struct Memory<'a> {
    pub mmu: MMU,
    pub context: &'a MemContext,
    pub ram: Ram,
}

impl<'a> Memory<'a> {
    /// The bank's invariant: a well-formed context, one frame per
    /// configured slot with base `i * page_size` and a full-size buffer,
    /// the stack region placed as configured inside physical memory, and
    /// every allocation key inside physical memory.
    pub open spec fn wf(self) -> bool {
        &&& self.context.wf()
        &&& self.ram._in@.len() == self.context.page_count
        &&& forall|i: int|
            0 <= i < self.ram._in@.len() ==> {
                &&& (#[trigger] self.ram._in@[i]).addr == i * self.context.page_size
                &&& self.ram._in@[i].data@.len() == self.context.page_size
            }
        &&& self.ram.stack.wf()
        &&& self.ram.stack.base == self.context.stack_base
        &&& self.ram.stack.cap == self.context.stack_sz
        &&& self.ram.stack.base + self.ram.stack.cap <= self.context.physical_mem_sz
        &&& forall|a: u64|
            #[trigger] self.mmu.allocations@.contains_key(a) ==> a < self.context.physical_mem_sz
    }

    /// Everything observable is as it was: the transition changed
    /// nothing.
    pub open spec fn state_eq(pre: Memory<'a>, post: Memory<'a>) -> bool {
        &&& post.context == pre.context
        &&& post.mmu.allocations@ == pre.mmu.allocations@
        &&& post.mmu.free_list@ == pre.mmu.free_list@
        &&& post.mmu.used_list@ == pre.mmu.used_list@
        &&& post.ram._in@ == pre.ram._in@
        &&& post.ram.stack == pre.ram.stack
    }

    /// Builds a fresh bank under the given context: all frames free and
    /// zeroed, nothing allocated, the stack empty at its base.
    pub fn new(ctxt: &'a MemContext) -> (m: Memory<'a>)
        requires
            ctxt.wf(),
        ensures
            m.wf(),
            m.context == ctxt,
            m.mmu.allocations@ == Map::<u64, MemBlob>::empty(),
            m.mmu.used_list@.len() == 0,
            m.mmu.free_list@.len() == ctxt.page_count,
            forall|i: int|
                0 <= i < ctxt.page_count ==> {
                    &&& (#[trigger] m.mmu.free_list@[i]).addr == i * ctxt.page_size
                    &&& m.mmu.free_list@[i].owner is None
                    &&& m.mmu.free_list@[i].data@.len() == ctxt.page_size
                    &&& forall|j: int| 0 <= j < ctxt.page_size ==> m.mmu.free_list@[i].data@[j]
                        == 0
                },
            m.ram.stack == (Stack {
                base: ctxt.stack_base,
                sz: 0,
                sp: ctxt.stack_base,
                cap: ctxt.stack_sz,
            }),
            m.ram._in@.len() == ctxt.page_count,
            forall|i: int|
                0 <= i < ctxt.page_count ==> {
                    &&& (#[trigger] m.ram._in@[i]).addr == i * ctxt.page_size
                    &&& m.ram._in@[i].owner is None
                    &&& forall|j: int| 0 <= j < ctxt.page_size ==> m.ram._in@[i].data@[j] == 0
                },
    {
        let stack = Stack {
            base: ctxt.stack_base,
            sz: 0,
            cap: ctxt.stack_sz,
            sp: ctxt.stack_base,
        };
        proof {
            lemma_page_size_fits(*ctxt);
        }
        let ram = Ram::new(ctxt.page_count, ctxt.page_size, stack);
        Memory { mmu: MMU::new_init(ctxt), context: ctxt, ram }
    }

    /// What reading one byte at a physical address yields: the covering
    /// frame is `addr / page_size`; a missing frame is `AddrOutOfRange`,
    /// a null frame (base address zero) reads as zero regardless of
    /// offset, and any other frame hands out the byte at the in-frame
    /// offset.
    pub open spec fn spec_read_at(self, addr: u64) -> Result<u8, FaultType> {
        let idx = addr as int / self.context.page_size as int;
        if idx < self.ram._in@.len() {
            let frame = self.ram._in@[idx];
            if frame.addr == 0 {
                Ok(0u8)
            } else {
                Ok(frame.data@[addr as int % self.context.page_size as int])
            }
        } else {
            Err(FaultType::AddrOutOfRange(addr))
        }
    }

    /// Reads the byte at a physical address, per `spec_read_at`.
    pub fn read_at(&self, addr: u64) -> (r: Result<u8, Fault>)
        requires
            self.wf(),
        ensures
            match self.spec_read_at(addr) {
                Ok(b) => r == Ok::<u8, Fault>(b),
                Err(ft) => r == Err::<u8, Fault>(Fault { _type: ft }),
            },
    {
        proof {
            lemma_page_size_fits(*self.context);
        }
        let ps = self.context.page_size;
        let idx64 = addr / ps;
        if idx64 >= self.ram._in.len() as u64 {
            return Err(Fault::_from(FaultType::AddrOutOfRange(addr)));
        }
        let idx = idx64 as usize;
        let page = &self.ram._in[idx];
        proof {
            lemma_fundamental_div_mod(addr as int, ps as int);
            lemma_mod_division_less_than_divisor(addr as int, ps as int);
            vstd::arithmetic::mul::lemma_mul_is_commutative(idx as int, ps as int);
        }
        let bytes = page.read(addr, 1);
        Ok(bytes[0])
    }

    /// Reads the byte at a physical address after checking that the
    /// address has an allocation recorded: `None` distinguishes "not
    /// allocated yet" from an allocated but faulting read.
    pub fn _read_at_checked(&self, addr: u64) -> (r: Option<Result<u8, Fault>>)
        requires
            self.wf(),
        ensures
            !self.mmu.allocations@.contains_key(addr) ==> r is None,
            self.mmu.allocations@.contains_key(addr) ==> match self.spec_read_at(addr) {
                Ok(b) => r == Some(Ok::<u8, Fault>(b)),
                Err(ft) => r == Some(Err::<u8, Fault>(Fault { _type: ft })),
            },
    {
        if !self.mmu.allocations.contains_key(&addr) {
            return None;
        }
        Some(self.read_at(addr))
    }

    /// Whether an address lies inside the reserved stack region.
    pub open spec fn in_stack_region(self, addr: u64) -> bool {
        self.context.stack_base <= addr < self.context.stack_base + self.context.stack_sz
    }

    /// Classifies a physical address: inside the reserved stack region
    /// or neutral (heap-like) space.
    pub fn region_of(&self, addr: u64) -> (r: RegionType)
        requires
            self.wf(),
        ensures
            r == RegionType::Stack <==> self.in_stack_region(addr),
    {
        if self.context.stack_base <= addr && addr - self.context.stack_base
            < self.context.stack_sz {
            RegionType::Stack
        } else {
            RegionType::Neutral
        }
    }

    /// How a plain (unchecked) write changes the bank: the covering
    /// frame takes the bytes per `paging::page_written`, every other
    /// frame and all bookkeeping stay unchanged; a missing covering
    /// frame changes nothing and reports `None`.
    pub open spec fn write_effect(
        pre: Memory<'a>,
        post: Memory<'a>,
        addr: u64,
        bytes: Seq<u8>,
        r: Option<()>,
    ) -> bool {
        let idx = addr as int / pre.context.page_size as int;
        &&& post.context == pre.context
        &&& post.mmu.allocations@ == pre.mmu.allocations@
        &&& post.mmu.free_list@ == pre.mmu.free_list@
        &&& post.mmu.used_list@ == pre.mmu.used_list@
        &&& post.ram.stack == pre.ram.stack
        &&& if idx < pre.ram._in@.len() {
            &&& r == Some(())
            &&& post.ram._in@.len() == pre.ram._in@.len()
            &&& paging::page_written(pre.ram._in@[idx], post.ram._in@[idx], addr, bytes)
            &&& forall|j: int|
                0 <= j < pre.ram._in@.len() && j != idx ==> post.ram._in@[j] == pre.ram._in@[j]
        } else {
            &&& r is None
            &&& post.ram._in@ == pre.ram._in@
        }
    }

    /// Writes bytes at a physical address with no allocation guard,
    /// clipped to the covering frame.
    pub fn _write_at_addr(&mut self, addr: u64, bytes: &[u8]) -> (r: Option<()>)
        requires
            old(self).wf(),
        ensures
            final(self).wf(),
            Self::write_effect(*old(self), *final(self), addr, bytes@, r),
    {
        proof {
            lemma_page_size_fits(*old(self).context);
        }
        let ps = self.context.page_size;
        let idx64 = addr / ps;
        if idx64 >= self.ram._in.len() as u64 {
            return None;
        }
        let idx = idx64 as usize;
        proof {
            lemma_fundamental_div_mod(addr as int, ps as int);
            lemma_mod_division_less_than_divisor(addr as int, ps as int);
            vstd::arithmetic::mul::lemma_mul_is_commutative(idx as int, ps as int);
        }
        let page = frame_mut(&mut self.ram._in, idx);
        page.write(addr, bytes);
        Some(())
    }

    /// Writes bytes at a physical address only when the address has an
    /// allocation recorded; `None` and no change otherwise.
    pub fn _write_at_addr_checked(&mut self, addr: u64, bytes: &[u8]) -> (r: Option<()>)
        requires
            old(self).wf(),
        ensures
            final(self).wf(),
            !old(self).mmu.allocations@.contains_key(addr) ==> r is None && Self::state_eq(
                *old(self),
                *final(self),
            ),
            old(self).mmu.allocations@.contains_key(addr) ==> Self::write_effect(
                *old(self),
                *final(self),
                addr,
                bytes@,
                r,
            ),
    {
        if !self.mmu.allocations.contains_key(&addr) {
            return None;
        }
        self._write_at_addr(addr, bytes)
    }

    /// Whether a checked allocation at this base address would take
    /// effect: no allocation is recorded there yet, the address lies
    /// outside the reserved stack region, and a frame covers it.
    pub open spec fn can_alloc(self, addr: u64) -> bool {
        &&& !self.mmu.allocations@.contains_key(addr)
        &&& !self.in_stack_region(addr)
        &&& addr < self.context.physical_mem_sz
    }

    /// How a checked allocation changes the bank: when it applies, the
    /// registry gains `addr -> n` classified neutral and the covering
    /// frame's owner becomes `owner`, all bytes untouched; when it is
    /// rejected, nothing at all changes.
    pub open spec fn alloc_transition(
        pre: Memory<'a>,
        post: Memory<'a>,
        addr: u64,
        n: usize,
        owner: u64,
        applied: bool,
    ) -> bool {
        let idx = addr as int / pre.context.page_size as int;
        &&& applied == pre.can_alloc(addr)
        &&& post.context == pre.context
        &&& post.mmu.free_list@ == pre.mmu.free_list@
        &&& post.mmu.used_list@ == pre.mmu.used_list@
        &&& post.ram.stack == pre.ram.stack
        &&& if applied {
            &&& post.mmu.allocations@ == pre.mmu.allocations@.insert(
                addr,
                MemBlob(addr::Addr { inner: addr }, RegionType::Neutral, n),
            )
            &&& post.ram._in@.len() == pre.ram._in@.len()
            &&& 0 <= idx < pre.ram._in@.len()
            &&& post.ram._in@[idx].addr == pre.ram._in@[idx].addr
            &&& post.ram._in@[idx].data@ == pre.ram._in@[idx].data@
            &&& post.ram._in@[idx].owner == Some(owner)
            &&& forall|j: int|
                0 <= j < pre.ram._in@.len() && j != idx ==> post.ram._in@[j] == pre.ram._in@[j]
        } else {
            &&& post.mmu.allocations@ == pre.mmu.allocations@
            &&& post.ram._in@ == pre.ram._in@
        }
    }

    /// Allocates (without writing) `n` consecutive bytes starting at
    /// `addr` for `owner`. A conflict — an existing allocation at the
    /// same base, a base inside the stack region, or a base past
    /// physical memory — leaves everything unchanged; the returned flag
    /// says whether the allocation took effect.
    pub fn _alloc(&mut self, addr: u64, n: usize, owner: u64) -> (applied: bool)
        requires
            old(self).wf(),
        ensures
            final(self).wf(),
            Self::alloc_transition(*old(self), *final(self), addr, n, owner, applied),
    {
        proof {
            lemma_page_size_fits(*old(self).context);
        }
        if self.mmu.allocations.contains_key(&addr) {
            return false;
        }
        if self.context.stack_base <= addr && addr - self.context.stack_base
            < self.context.stack_sz {
            return false;
        }
        if addr >= self.context.physical_mem_sz {
            return false;
        }
        let ps = self.context.page_size;
        let idx64 = addr / ps;
        proof {
            vstd::arithmetic::mul::lemma_mul_is_commutative(
                self.context.page_count as int,
                ps as int,
            );
            lemma_multiply_divide_lt(addr as int, ps as int, self.context.page_count as int);
        }
        let idx = idx64 as usize;
        self.mmu.allocations.insert(
            addr,
            MemBlob(addr::Addr { inner: addr }, RegionType::Neutral, n),
        );
        let page = frame_mut(&mut self.ram._in, idx);
        page.owner = Some(owner);
        true
    }

    /// Unconditionally removes the allocation recorded at `addr` — any
    /// owner may free any allocation — returning the covering frame to
    /// the free state. `None` when nothing was recorded there.
    pub fn _dealloc(&mut self, addr: u64) -> (r: Option<()>)
        requires
            old(self).wf(),
        ensures
            final(self).wf(),
            !old(self).mmu.allocations@.contains_key(addr) ==> r is None && Self::state_eq(
                *old(self),
                *final(self),
            ),
            old(self).mmu.allocations@.contains_key(addr) ==> {
                let idx = addr as int / old(self).context.page_size as int;
                &&& r == Some(())
                &&& final(self).context == old(self).context
                &&& final(self).mmu.allocations@ == old(self).mmu.allocations@.remove(addr)
                &&& final(self).mmu.free_list@ == old(self).mmu.free_list@
                &&& final(self).mmu.used_list@ == old(self).mmu.used_list@
                &&& final(self).ram.stack == old(self).ram.stack
                &&& final(self).ram._in@.len() == old(self).ram._in@.len()
                &&& 0 <= idx < old(self).ram._in@.len()
                &&& final(self).ram._in@[idx].addr == old(self).ram._in@[idx].addr
                &&& final(self).ram._in@[idx].data@ == old(self).ram._in@[idx].data@
                &&& final(self).ram._in@[idx].owner is None
                &&& forall|j: int|
                    0 <= j < old(self).ram._in@.len() && j != idx ==> final(self).ram._in@[j]
                        == old(self).ram._in@[j]
            },
    {
        proof {
            lemma_page_size_fits(*old(self).context);
        }
        match self.mmu.allocations.remove(&addr) {
            None => {
                proof {
                    assert(self.mmu.allocations@ =~= old(self).mmu.allocations@);
                }
                None
            },
            Some(_) => {
                let ps = self.context.page_size;
                let idx64 = addr / ps;
                proof {
                    vstd::arithmetic::mul::lemma_mul_is_commutative(
                        self.context.page_count as int,
                        ps as int,
                    );
                    lemma_multiply_divide_lt(
                        addr as int,
                        ps as int,
                        self.context.page_count as int,
                    );
                }
                let page = frame_mut(&mut self.ram._in, idx64 as usize);
                page.owner = None;
                Some(())
            },
        }
    }

    /// Removes the allocation at `addr` only when the covering frame's
    /// owner matches the caller; otherwise nothing changes and `None`
    /// reports that.
    pub fn dealloc_owned(&mut self, addr: u64, owner: u64) -> (r: Option<()>)
        requires
            old(self).wf(),
        ensures
            final(self).wf(),
            ({
                let idx = addr as int / old(self).context.page_size as int;
                let owner_matches = idx < old(self).ram._in@.len() && old(self).ram._in@[idx].owner
                    == Some(owner);
                &&& (!owner_matches || !old(self).mmu.allocations@.contains_key(addr)) ==> r
                    is None && Self::state_eq(*old(self), *final(self))
                &&& (owner_matches && old(self).mmu.allocations@.contains_key(addr)) ==> {
                    &&& r == Some(())
                    &&& final(self).mmu.allocations@ == old(self).mmu.allocations@.remove(addr)
                    &&& final(self).context == old(self).context
                    &&& final(self).mmu.free_list@ == old(self).mmu.free_list@
                    &&& final(self).mmu.used_list@ == old(self).mmu.used_list@
                    &&& final(self).ram.stack == old(self).ram.stack
                    &&& final(self).ram._in@.len() == old(self).ram._in@.len()
                    &&& final(self).ram._in@[idx].addr == old(self).ram._in@[idx].addr
                    &&& final(self).ram._in@[idx].data@ == old(self).ram._in@[idx].data@
                    &&& final(self).ram._in@[idx].owner is None
                    &&& forall|j: int|
                        0 <= j < old(self).ram._in@.len() && j != idx ==> final(self).ram._in@[j]
                            == old(self).ram._in@[j]
                }
            }),
    {
        proof {
            lemma_page_size_fits(*old(self).context);
        }
        let ps = self.context.page_size;
        let idx64 = addr / ps;
        if idx64 >= self.ram._in.len() as u64 {
            return None;
        }
        let owner_matches = match self.ram._in[idx64 as usize].owner {
            Some(o) => o == owner,
            None => false,
        };
        if !owner_matches {
            return None;
        }
        self._dealloc(addr)
    }

    /// Removes the allocation at `addr` only when the address lies
    /// outside the reserved stack region; otherwise nothing changes.
    pub fn dealloc_outside_stack(&mut self, addr: u64) -> (r: Option<()>)
        requires
            old(self).wf(),
        ensures
            final(self).wf(),
            old(self).in_stack_region(addr) ==> r is None && Self::state_eq(
                *old(self),
                *final(self),
            ),
            !old(self).in_stack_region(addr) && !old(self).mmu.allocations@.contains_key(addr)
                ==> r is None && Self::state_eq(*old(self), *final(self)),
            !old(self).in_stack_region(addr) && old(self).mmu.allocations@.contains_key(addr)
                ==> r == Some(()) && final(self).mmu.allocations@ == old(
                self,
            ).mmu.allocations@.remove(addr),
    {
        if self.context.stack_base <= addr && addr - self.context.stack_base
            < self.context.stack_sz {
            return None;
        }
        self._dealloc(addr)
    }

    /// Pushes one byte onto the stack: with the region at capacity the
    /// push fails with `StackOverflow` and changes nothing; otherwise
    /// the byte lands at the stack pointer's frame position and the
    /// pointer advances.
    pub fn _push(&mut self, byte: u8) -> (r: Result<(), Fault>)
        requires
            old(self).wf(),
        ensures
            final(self).wf(),
            !old(self).ram.stack.spec_push_allowed() ==> r == Err::<(), Fault>(
                Fault { _type: FaultType::StackOverflow(old(self).ram.stack.sp) },
            ) && Self::state_eq(*old(self), *final(self)),
            old(self).ram.stack.spec_push_allowed() ==> {
                let sp = old(self).ram.stack.sp;
                let idx = sp as int / old(self).context.page_size as int;
                &&& r == Ok::<(), Fault>(())
                &&& final(self).ram.stack == old(self).ram.stack.spec_after_pushes(1)
                &&& final(self).context == old(self).context
                &&& final(self).mmu.allocations@ == old(self).mmu.allocations@
                &&& final(self).mmu.free_list@ == old(self).mmu.free_list@
                &&& final(self).mmu.used_list@ == old(self).mmu.used_list@
                &&& final(self).ram._in@.len() == old(self).ram._in@.len()
                &&& 0 <= idx < old(self).ram._in@.len()
                &&& paging::page_written(
                    old(self).ram._in@[idx],
                    final(self).ram._in@[idx],
                    sp,
                    seq![byte],
                )
                &&& forall|j: int|
                    0 <= j < old(self).ram._in@.len() && j != idx ==> final(self).ram._in@[j]
                        == old(self).ram._in@[j]
            },
    {
        proof {
            lemma_page_size_fits(*old(self).context);
        }
        let sp = self.ram.stack.sp;
        if sp >= self.ram.stack.base + self.ram.stack.cap {
            return Err(Fault::_from(FaultType::StackOverflow(sp)));
        }
        let ps = self.context.page_size;
        let idx64 = sp / ps;
        proof {
            vstd::arithmetic::mul::lemma_mul_is_commutative(
                self.context.page_count as int,
                ps as int,
            );
            lemma_multiply_divide_lt(sp as int, ps as int, self.context.page_count as int);
            lemma_fundamental_div_mod(sp as int, ps as int);
            lemma_mod_division_less_than_divisor(sp as int, ps as int);
            vstd::arithmetic::mul::lemma_mul_is_commutative(idx64 as int, ps as int);
        }
        let page = frame_mut(&mut self.ram._in, idx64 as usize);
        page.write_byte(sp, byte);
        self.ram.stack._push_sp();
        Ok(())
    }

    /// Pops one byte off the stack: on an empty stack the pop fails with
    /// `Unrecoverable` and changes nothing; otherwise the pointer
    /// retreats first and the byte now at it is read back.
    pub fn _pop(&mut self) -> (r: Result<u8, Fault>)
        requires
            old(self).wf(),
        ensures
            final(self).wf(),
            !old(self).ram.stack.spec_pop_allowed() ==> r == Err::<u8, Fault>(
                Fault { _type: FaultType::Unrecoverable },
            ) && Self::state_eq(*old(self), *final(self)),
            old(self).ram.stack.spec_pop_allowed() ==> {
                &&& final(self).ram._in@ == old(self).ram._in@
                &&& final(self).context == old(self).context
                &&& final(self).mmu.allocations@ == old(self).mmu.allocations@
                &&& final(self).mmu.free_list@ == old(self).mmu.free_list@
                &&& final(self).mmu.used_list@ == old(self).mmu.used_list@
                &&& final(self).ram.stack == (Stack {
                    sp: (old(self).ram.stack.sp - 1) as u64,
                    sz: (old(self).ram.stack.sz - 1) as u64,
                    ..old(self).ram.stack
                })
                &&& Ok::<u8, FaultType>(r->Ok_0) == old(self).spec_read_at(
                    (old(self).ram.stack.sp - 1) as u64,
                )
                &&& r is Ok
            },
    {
        proof {
            lemma_page_size_fits(*old(self).context);
        }
        if self.ram.stack.sp <= self.ram.stack.base {
            return Err(Fault::_from(FaultType::Unrecoverable));
        }
        let ps = self.context.page_size;
        match self.ram.stack._pop_sp() {
            Ok(_) => {},
            Err(f) => {
                return Err(f);
            },
        }
        let sp = self.ram.stack.sp;
        proof {
            vstd::arithmetic::mul::lemma_mul_is_commutative(
                self.context.page_count as int,
                ps as int,
            );
            lemma_multiply_divide_lt(sp as int, ps as int, self.context.page_count as int);
        }
        match self.read_at(sp) {
            Ok(b) => Ok(b),
            Err(f) => {
                proof {
                    // the stack pointer stays inside physical memory, so
                    // this read cannot miss a frame
                    assert(false);
                }
                Err(f)
            },
        }
    }
}

/// Allocation exclusivity: once a checked allocation at `addr` has
/// taken effect, a second checked allocation at the same address —
/// whatever its length or owner — is rejected and changes nothing, so
/// the registry still records the first allocation's length.
pub proof fn lemma_alloc_exclusive<'a>(
    m0: Memory<'a>,
    m1: Memory<'a>,
    m2: Memory<'a>,
    addr: u64,
    n: usize,
    owner: u64,
    n2: usize,
    owner2: u64,
    applied2: bool,
)
    requires
        m0.can_alloc(addr),
        Memory::alloc_transition(m0, m1, addr, n, owner, true),
        Memory::alloc_transition(m1, m2, addr, n2, owner2, applied2),
    ensures
        !applied2,
        m2.mmu.allocations@ == m1.mmu.allocations@,
        m2.mmu.allocations@[addr] == MemBlob(addr::Addr { inner: addr }, RegionType::Neutral, n),
        m2.mmu.allocations@[addr].2 == n,
{
    assert(m1.mmu.allocations@.contains_key(addr));
}

/// Null-frame convention: a read at any address whose covering frame
/// has base address zero yields the byte zero, regardless of the
/// in-frame offset.
pub proof fn lemma_null_frame_reads_zero<'a>(m: Memory<'a>, addr: u64)
    requires
        m.wf(),
        (addr as int / m.context.page_size as int) < m.ram._in@.len(),
        m.ram._in@[addr as int / m.context.page_size as int].addr == 0,
    ensures
        m.spec_read_at(addr) == Ok::<u8, FaultType>(0u8),
{
}

/// A configured page size fits comfortably below every machine bound.
pub proof fn lemma_page_size_fits(ctxt: MemContext)
    requires
        ctxt.wf(),
    ensures
        0 < ctxt.page_size <= 0x10000,
{
    lemma2_to64();
    lemma_pow2_pos(ctxt.v_addr_off_len as nat);
    if (ctxt.v_addr_off_len as nat) < 16 {
        lemma_pow2_strictly_increases(ctxt.v_addr_off_len as nat, 16);
    }
}

} // verus!
