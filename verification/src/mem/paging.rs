//! Page tables, page-table entries, physical pages and the multi-level
//! translation walk.
//!
//! The entry format is deliberately simplified: present / writable /
//! accessed / dirty flags plus a frame base address held in one 32-bit
//! bitset, the base aligned to 4 KiB as its low twelve bits are cleared
//! by construction. It does not reproduce the full hardware layout.

use super::addr::{spec_level_index, spec_offset_of, Addr, VirtualAddress};
use super::config::MemContext;
use crate::fault::{Fault, FaultType};
use vstd::arithmetic::power2::lemma2_to64;
use vstd::prelude::*;

verus! {

/// Bit position at which a page-table entry's frame base starts.
pub const PTXSHIFT: u32 = 12;

/// The flag bits of a page-table entry, addressed as a small closed
/// enumeration backed by explicit masks.
#[derive(Clone, Copy, Debug)]
pub enum Flag {
    Present,
    Writable,
    Accessed,
    Dirty,
}

/// The mask selecting one flag's bit inside the entry bitset.
pub open spec fn flag_mask(flag: Flag) -> u32 {
    match flag {
        Flag::Present => 0x1,
        Flag::Writable => 0x2,
        Flag::Accessed => 0x20,
        Flag::Dirty => 0x40,
    }
}

/// One page-table slot: flag bits plus a frame base address, encoded in
/// a single 32-bit bitset.
#[derive(Clone, Copy, Debug, PartialEq, Eq, Structural)]
pub struct PageTableEntry(pub u32);

impl PageTableEntry {
    /// Whether the given flag bit is set.
    pub open spec fn spec_flag(self, flag: Flag) -> bool {
        self.0 & flag_mask(flag) == flag_mask(flag)
    }

    /// The frame base address carried by this entry: the bitset with the
    /// low twelve (flag) bits cleared.
    pub open spec fn spec_address(self) -> u64 {
        (self.0 & !0xfffu32) as u64
    }

    /// Builds an entry whose frame base is page `ppn` and whose flags are
    /// all clear.
    pub fn new(ppn: u32) -> (r: Self)
        ensures
            r.0 == (ppn << PTXSHIFT) & !0xfffu32,
            r.0 & 0xfff == 0,
    {
        proof {
            assert(((ppn << 12u32) & !0xfffu32) & 0xfff == 0) by (bit_vector);
        }
        Self((ppn << PTXSHIFT) & !0xfffu32)
    }

    /// Reads one flag bit.
    pub fn get_flag(&self, flag: Flag) -> (r: bool)
        ensures
            r == self.spec_flag(flag),
    {
        match flag {
            Flag::Present => self.0 & 0x1 == 0x1,
            Flag::Writable => self.0 & 0x2 == 0x2,
            Flag::Accessed => self.0 & 0x20 == 0x20,
            Flag::Dirty => self.0 & 0x40 == 0x40,
        }
    }

    /// Sets one flag bit, leaving every other bit unchanged.
    pub fn set_flag(&mut self, flag: Flag)
        ensures
            final(self).0 == old(self).0 | flag_mask(flag),
    {
        match flag {
            Flag::Present => self.0 = self.0 | 0x1,
            Flag::Writable => self.0 = self.0 | 0x2,
            Flag::Accessed => self.0 = self.0 | 0x20,
            Flag::Dirty => self.0 = self.0 | 0x40,
        }
    }

    /// Clears one flag bit, leaving every other bit unchanged.
    pub fn clear_flag(&mut self, flag: Flag)
        ensures
            final(self).0 == old(self).0 & !flag_mask(flag),
    {
        match flag {
            Flag::Present => self.0 = self.0 & !0x1u32,
            Flag::Writable => self.0 = self.0 & !0x2u32,
            Flag::Accessed => self.0 = self.0 & !0x20u32,
            Flag::Dirty => self.0 = self.0 & !0x40u32,
        }
    }

    /// The frame base address carried by this entry.
    pub fn get_address(&self) -> (a: Addr)
        ensures
            a.inner == self.spec_address(),
    {
        Addr::new((self.0 & !0xfffu32) as u64)
    }
}

/// A single-level page table: a fixed number of optional entry slots,
/// hard-indexed by one decomposed level field of a virtual address. The
/// slot count is fixed at creation; insertion outside it fails without
/// mutation.
pub struct PageTable {
    arr: Vec<Option<PageTableEntry>>,
}

impl View for PageTable {
    type V = Seq<Option<PageTableEntry>>;

    closed spec fn view(&self) -> Seq<Option<PageTableEntry>> {
        self.arr@
    }
}

impl PageTable {
    /// Creates a table of `page_count` absent slots.
    pub fn new_init(page_count: usize) -> (t: PageTable)
        ensures
            t@.len() == page_count,
            forall|i: int| 0 <= i < page_count ==> t@[i] is None,
    {
        let mut arr: Vec<Option<PageTableEntry>> = Vec::new();
        let mut i: usize = 0;
        while i < page_count
            invariant
                i <= page_count,
                arr@.len() == i,
                forall|j: int| 0 <= j < i ==> arr@[j] is None,
            decreases page_count - i,
        {
            arr.push(None);
            i = i + 1;
        }
        PageTable { arr }
    }

    /// Stores an entry at the slot a decomposed level field selects.
    /// Fails without mutation when the level field is absent or the slot
    /// index lies outside the table's fixed capacity.
    pub fn add_pte(&mut self, pte: PageTableEntry, at_addr: Option<u16>) -> (r: Option<()>)
        ensures
            match at_addr {
                Some(i) => {
                    if (i as int) < old(self)@.len() {
                        r == Some(()) && final(self)@ == old(self)@.update(i as int, Some(pte))
                    } else {
                        r is None && final(self)@ == old(self)@
                    }
                },
                None => r is None && final(self)@ == old(self)@,
            },
    {
        match at_addr {
            None => None,
            Some(i) => {
                if (i as usize) < self.arr.len() {
                    self.arr.set(i as usize, Some(pte));
                    Some(())
                } else {
                    None
                }
            },
        }
    }

    /// The entry a decomposed level field selects: present only when the
    /// field itself is present, in range, and the slot holds an entry.
    pub open spec fn spec_lookup(self, at_addr: Option<u16>) -> Option<PageTableEntry> {
        match at_addr {
            Some(i) => {
                if (i as int) < self@.len() && self@[i as int] is Some {
                    Some(self@[i as int]->0)
                } else {
                    None
                }
            },
            None => None,
        }
    }

    /// Fetches the entry a decomposed level field selects.
    pub fn lookup(&self, at_addr: Option<u16>) -> (r: Option<PageTableEntry>)
        ensures
            r == self.spec_lookup(at_addr),
    {
        match at_addr {
            None => None,
            Some(i) => {
                if (i as usize) < self.arr.len() {
                    self.arr[i as usize]
                } else {
                    None
                }
            },
        }
    }

    /// Retrieves the physical frame base address for the entry at
    /// `at_addr`, or nothing when the field, the slot or the entry is
    /// absent.
    pub fn _get_frame_addr(&self, at_addr: Option<u16>) -> (r: Option<Addr>)
        ensures
            match self.spec_lookup(at_addr) {
                Some(e) => r == Some(Addr { inner: e.spec_address() }),
                None => r is None,
            },
    {
        match self.lookup(at_addr) {
            Some(e) => Some(e.get_address()),
            None => None,
        }
    }

    /// The single-table translation outcome for an already decomposed
    /// virtual address: the entry its first level field selects, checked
    /// for presence, joined with the in-page offset. A missing slot is a
    /// translation miss tagged with the level index; a clear present flag
    /// is a null dereference tagged with the frame base.
    pub open spec fn spec_translation(self, vaddr: VirtualAddress) -> Result<u64, FaultType> {
        match self.spec_lookup(vaddr.lvl1) {
            None => Err(
                FaultType::AddrOutOfRange(
                    match vaddr.lvl1 {
                        Some(i) => i as u64,
                        None => 0,
                    },
                ),
            ),
            Some(e) => {
                if !e.spec_flag(Flag::Present) {
                    Err(FaultType::NullPointerDeref(e.spec_address()))
                } else {
                    Ok((e.spec_address() + vaddr.offset) as u64)
                }
            },
        }
    }

    /// Translates an already decomposed virtual address against this
    /// single table, per `spec_translation`.
    pub fn translation(&self, vaddr: &VirtualAddress) -> (r: Result<Addr, Fault>)
        requires
            vaddr.offset <= 0xfff,
        ensures
            match self.spec_translation(*vaddr) {
                Ok(pa) => r matches Ok(a) && a.inner == pa,
                Err(ft) => r == Err::<Addr, Fault>(Fault { _type: ft }),
            },
    {
        match self.lookup(vaddr.lvl1) {
            None => {
                let tag: u64 = match vaddr.lvl1 {
                    Some(i) => i as u64,
                    None => 0,
                };
                Err(Fault::_from(FaultType::AddrOutOfRange(tag)))
            },
            Some(e) => {
                if !e.get_flag(Flag::Present) {
                    Err(Fault::_from(FaultType::NullPointerDeref(e.get_address().inner)))
                } else {
                    let base = e.get_address();
                    proof {
                        lemma_entry_address_aligned(e);
                        lemma_aligned_or_is_add(e.spec_address(), vaddr.offset as u64);
                    }
                    Ok(Addr::new(base.inner | (vaddr.offset as u64)))
                }
            },
        }
    }
}

/// An entry's frame base address keeps its low twelve bits clear.
proof fn lemma_entry_address_aligned(e: PageTableEntry)
    ensures
        e.spec_address() & 0xfff == 0,
{
    let x = e.0;
    assert(((x & !0xfffu32) as u64) & 0xfff == 0) by (bit_vector);
}

/// Joining a 4 KiB-aligned base with an in-page offset by bitwise or is
/// plain addition.
proof fn lemma_aligned_or_is_add(b: u64, o: u64)
    requires
        b & 0xfff == 0,
        o <= 0xfff,
    ensures
        b | o == b + o,
{
    assert(b & 0xfff == 0 && o <= 0xfff ==> (b | o) == b + o) by (bit_vector);
}

/// One process's full translation root: one optional table per
/// configured level. Level 0 is nearest the offset field; the walk
/// enters at the highest configured level.
pub struct PageDirectory {
    pub levels: Vec<Option<PageTable>>,
}

impl PageDirectory {
    /// Shape agreement with a configuration: one slot per configured
    /// level.
    pub open spec fn wf(self, ctxt: MemContext) -> bool {
        self.levels@.len() == ctxt.pt_levels
    }

    /// Creates a directory with every level's table absent.
    pub fn new(ctxt: &MemContext) -> (d: PageDirectory)
        requires
            ctxt.wf(),
        ensures
            d.wf(*ctxt),
            forall|i: int| 0 <= i < ctxt.pt_levels ==> d.levels@[i] is None,
    {
        let mut levels: Vec<Option<PageTable>> = Vec::new();
        let mut i: usize = 0;
        while i < ctxt.pt_levels as usize
            invariant
                i <= ctxt.pt_levels,
                levels@.len() == i,
                forall|j: int| 0 <= j < i ==> levels@[j] is None,
            decreases ctxt.pt_levels - i,
        {
            levels.push(None);
            i = i + 1;
        }
        PageDirectory { levels }
    }

    /// Installs a table at one level, replacing whatever was there.
    pub fn set_level(&mut self, i: usize, table: PageTable)
        requires
            i < old(self).levels@.len(),
        ensures
            final(self).levels@ == old(self).levels@.update(i as int, Some(table)),
    {
        self.levels.set(i, Some(table));
    }

    /// The entry that level `i` of the walk selects for a raw address:
    /// present only when the level's table exists and its slot at the
    /// address's level index holds an entry.
    pub open spec fn spec_lookup_level(self, raw: u64, ctxt: MemContext, i: int) -> Option<
        PageTableEntry,
    > {
        if 0 <= i < self.levels@.len() && self.levels@[i] is Some {
            self.levels@[i]->0.spec_lookup(Some(spec_level_index(raw, ctxt, i) as u16))
        } else {
            None
        }
    }

    /// The multi-level translation outcome for a raw virtual address:
    /// every configured level must resolve, the level-0 entry must be
    /// present, and the physical address is its frame base joined with
    /// the in-page offset. A level that fails to resolve is a miss
    /// (`AddrOutOfRange`), never a silent zero page; an absent present
    /// flag is a `NullPointerDeref`.
    pub open spec fn spec_translate(self, raw: u64, ctxt: MemContext) -> Result<u64, FaultType> {
        if ctxt.pt_levels == 0 {
            Err(FaultType::AddrOutOfRange(raw))
        } else if exists|i: int|
            0 <= i < ctxt.pt_levels && self.spec_lookup_level(raw, ctxt, i) is None {
            Err(FaultType::AddrOutOfRange(raw))
        } else if !self.spec_lookup_level(raw, ctxt, 0)->0.spec_flag(Flag::Present) {
            Err(FaultType::NullPointerDeref(raw))
        } else {
            Ok(
                (self.spec_lookup_level(raw, ctxt, 0)->0.spec_address() + spec_offset_of(raw, ctxt))
                    as u64,
            )
        }
    }

    /// `spec_translate` wrapped into the executable result type.
    pub open spec fn translate_result(self, raw: u64, ctxt: MemContext) -> Result<u64, Fault> {
        match self.spec_translate(raw, ctxt) {
            Ok(pa) => Ok(pa),
            Err(ft) => Err(Fault { _type: ft }),
        }
    }

    /// Walks the directory from the highest configured level down to
    /// level 0 and resolves a raw virtual address to a physical one.
    /// The entry format fixes twelve offset bits, so the configuration
    /// must run 4 KiB pages.
    pub fn translate(&self, raw: u64, ctxt: &MemContext) -> (r: Result<u64, Fault>)
        requires
            ctxt.wf(),
            self.wf(*ctxt),
            1 <= ctxt.pt_levels,
            ctxt.v_addr_off_len == 12,
        ensures
            r == self.translate_result(raw, *ctxt),
    {
        let vaddr = VirtualAddress::from_addr(raw, ctxt);
        let mut i: usize = ctxt.pt_levels as usize;
        while i > 1
            invariant
                ctxt.wf(),
                self.wf(*ctxt),
                1 <= i <= ctxt.pt_levels,
                vaddr.is_decomposition_of(raw, *ctxt),
                forall|j: int|
                    i <= j < ctxt.pt_levels ==> self.spec_lookup_level(raw, *ctxt, j) is Some,
            decreases i,
        {
            i = i - 1;
            let idx = vaddr.level(i);
            let found: bool = match &self.levels[i] {
                None => false,
                Some(table) => table.lookup(idx).is_some(),
            };
            if !found {
                proof {
                    assert(self.spec_lookup_level(raw, *ctxt, i as int) is None);
                }
                return Err(Fault::_from(FaultType::AddrOutOfRange(raw)));
            }
        }
        let idx0 = vaddr.level(0);
        let e: Option<PageTableEntry> = match &self.levels[0] {
            None => None,
            Some(table) => table.lookup(idx0),
        };
        match e {
            None => {
                proof {
                    assert(self.spec_lookup_level(raw, *ctxt, 0) is None);
                }
                Err(Fault::_from(FaultType::AddrOutOfRange(raw)))
            },
            Some(entry) => {
                proof {
                    assert(forall|j: int|
                        0 <= j < ctxt.pt_levels ==> self.spec_lookup_level(
                            raw,
                            *ctxt,
                            j,
                        ) is Some);
                }
                if !entry.get_flag(Flag::Present) {
                    Err(Fault::_from(FaultType::NullPointerDeref(raw)))
                } else {
                    let base = entry.get_address();
                    let off: u64 = vaddr.offset as u64;
                    proof {
                        lemma2_to64();
                        assert(vaddr.offset < 4096);
                        lemma_entry_address_aligned(entry);
                        lemma_aligned_or_is_add(entry.spec_address(), off);
                    }
                    Ok(base.inner | off)
                }
            },
        }
    }
}

/// Translation determinism: the outcome of translating a raw address is
/// a single value fixed by the directory, the address and the
/// configuration alone, so two translations against an unmodified
/// directory agree.
pub proof fn lemma_translation_deterministic(
    d: PageDirectory,
    raw: u64,
    ctxt: MemContext,
    r1: Result<u64, Fault>,
    r2: Result<u64, Fault>,
)
    requires
        r1 == d.translate_result(raw, ctxt),
        r2 == d.translate_result(raw, ctxt),
    ensures
        r1 == r2,
{
}

/// An empty directory — every level's table absent — misses on every
/// address: translation always reports `AddrOutOfRange`.
pub proof fn lemma_empty_directory_misses(d: PageDirectory, raw: u64, ctxt: MemContext)
    requires
        ctxt.wf(),
        d.wf(ctxt),
        1 <= ctxt.pt_levels,
        forall|i: int| 0 <= i < d.levels@.len() ==> d.levels@[i] is None,
    ensures
        d.translate_result(raw, ctxt) == Err::<u64, Fault>(
            Fault { _type: FaultType::AddrOutOfRange(raw) },
        ),
{
    assert(d.spec_lookup_level(raw, ctxt, 0) is None);
}

/// How writing `bytes` at `addr` changes a frame: the window starting
/// at the in-frame offset takes the bytes, clipped to the frame
/// boundary; everything else — remaining bytes, base address, owner —
/// stays as it was.
pub open spec fn page_written(pre: Page, post: Page, addr: u64, bytes: Seq<u8>) -> bool {
    &&& post.addr == pre.addr
    &&& post.owner == pre.owner
    &&& post.data@.len() == pre.data@.len()
    &&& forall|k: int|
        0 <= k < pre.data@.len() ==> post.data@[k] == (if addr - pre.addr <= k < addr - pre.addr
            + bytes.len() {
            bytes[k - (addr - pre.addr)]
        } else {
            pre.data@[k]
        })
}

/// A physical frame: a fixed-size byte buffer, the frame's base address,
/// and the owning process when allocated (`None` means free). The buffer
/// is never resized, only overwritten or zeroed.
#[derive(Debug)]
pub struct Page {
    pub data: Vec<u8>,
    pub addr: u64,
    pub owner: Option<u64>,
}

impl Page {
    /// Creates a free, zero-filled frame at the given base address.
    pub(crate) fn new(addr: u64, page_size: usize) -> (p: Page)
        ensures
            p.addr == addr,
            p.owner is None,
            p.data@.len() == page_size,
            forall|j: int| 0 <= j < page_size ==> p.data@[j] == 0,
    {
        let mut data: Vec<u8> = Vec::new();
        let mut i: usize = 0;
        while i < page_size
            invariant
                i <= page_size,
                data@.len() == i,
                forall|j: int| 0 <= j < i ==> data@[j] == 0,
            decreases page_size - i,
        {
            data.push(0);
            i = i + 1;
        }
        Page { data, addr, owner: None }
    }

    /// Writes one byte at `addr`, clipped to the frame boundary like
    /// `write`.
    pub fn write_byte(&mut self, addr: u64, byte: u8)
        requires
            old(self).addr <= addr,
        ensures
            page_written(*old(self), *final(self), addr, seq![byte]),
    {
        let offset = addr - self.addr;
        if offset >= self.data.len() as u64 {
            return ;
        }
        self.data.set(offset as usize, byte);
    }

    /// What reading `n` bytes at `addr` out of this frame yields: a null
    /// frame (base address zero) reads as zeroes regardless of offset;
    /// otherwise the bytes from the in-frame offset on, clipped to the
    /// frame boundary.
    pub open spec fn spec_read(self, addr: u64, n: nat) -> Seq<u8> {
        if self.addr == 0 {
            Seq::new(n, |i: int| 0u8)
        } else {
            let s = addr - self.addr;
            if 0 <= s <= self.data@.len() {
                let e = if s + n <= self.data@.len() {
                    s + n
                } else {
                    self.data@.len() as int
                };
                self.data@.subrange(s as int, e)
            } else {
                Seq::empty()
            }
        }
    }

    /// Reads `n` bytes starting at `addr`, using the frame's base
    /// address to find the in-frame offset; see `spec_read`.
    pub fn read(&self, addr: u64, n: usize) -> (r: Vec<u8>)
        requires
            self.addr != 0 ==> self.addr <= addr && addr - self.addr <= self.data@.len(),
        ensures
            r@ == self.spec_read(addr, n as nat),
    {
        let mut out: Vec<u8> = Vec::new();
        if self.addr == 0 {
            let mut i: usize = 0;
            while i < n
                invariant
                    i <= n,
                    out@.len() == i,
                    forall|j: int| 0 <= j < i ==> out@[j] == 0,
                decreases n - i,
            {
                out.push(0);
                i = i + 1;
            }
            proof {
                assert(out@ =~= self.spec_read(addr, n as nat));
            }
            return out;
        }
        let s = (addr - self.addr) as usize;
        let e: usize = if n < self.data.len() - s {
            s + n
        } else {
            self.data.len()
        };
        let mut j: usize = s;
        while j < e
            invariant
                s <= j <= e <= self.data@.len(),
                out@.len() == j - s,
                forall|k: int| 0 <= k < j - s ==> out@[k] == self.data@[s + k],
            decreases e - j,
        {
            out.push(self.data[j]);
            j = j + 1;
        }
        proof {
            assert(out@ =~= self.spec_read(addr, n as nat));
        }
        out
    }

    /// Writes the given bytes starting at `addr`, clipped to the frame
    /// boundary if the destination would overrun — never a panic. Bytes
    /// outside the written window, the base address and the owner stay
    /// unchanged.
    pub fn write(&mut self, addr: u64, data: &[u8])
        requires
            old(self).addr <= addr,
        ensures
            page_written(*old(self), *final(self), addr, data@),
    {
        let offset = addr - self.addr;
        if offset >= self.data.len() as u64 {
            return ;
        }
        let s = offset as usize;
        let cap = self.data.len() - s;
        let mut i: usize = 0;
        while i < data.len() && i < cap
            invariant
                s + cap == self.data@.len(),
                s + cap <= usize::MAX,
                self.addr == old(self).addr,
                self.owner == old(self).owner,
                self.data@.len() == old(self).data@.len(),
                s == addr - old(self).addr,
                i <= data@.len(),
                forall|k: int|
                    0 <= k < self.data@.len() ==> self.data@[k] == (if s <= k < s + i {
                        data@[k - s]
                    } else {
                        old(self).data@[k]
                    }),
            decreases data@.len() - i,
        {
            self.data.set(s + i, data[i]);
            i = i + 1;
        }
    }

    /// The frame's base address.
    pub fn addr(&self) -> (a: Addr)
        ensures
            a.inner == self.addr,
    {
        Addr::new(self.addr)
    }

    /// Zeroes the frame's buffer.
    fn zero(&mut self)
        ensures
            final(self).addr == old(self).addr,
            final(self).owner == old(self).owner,
            final(self).data@.len() == old(self).data@.len(),
            forall|k: int| 0 <= k < old(self).data@.len() ==> final(self).data@[k] == 0,
    {
        let mut i: usize = 0;
        let n = self.data.len();
        while i < n
            invariant
                n == self.data@.len(),
                self.addr == old(self).addr,
                self.owner == old(self).owner,
                self.data@.len() == old(self).data@.len(),
                i <= n,
                forall|k: int| 0 <= k < i ==> self.data@[k] == 0,
            decreases n - i,
        {
            self.data.set(i, 0);
            i = i + 1;
        }
    }

    /// Copies another frame's bytes into this one; the base address and
    /// owner stay as they were.
    pub fn copy(&mut self, other: &Page)
        requires
            old(self).data@.len() == other.data@.len(),
        ensures
            final(self).addr == old(self).addr,
            final(self).owner == old(self).owner,
            final(self).data@ == other.data@,
    {
        let mut i: usize = 0;
        let n = self.data.len();
        while i < n
            invariant
                n == self.data@.len(),
                self.data@.len() == other.data@.len(),
                self.addr == old(self).addr,
                self.owner == old(self).owner,
                i <= n,
                forall|k: int| 0 <= k < i ==> self.data@[k] == other.data@[k],
            decreases n - i,
        {
            self.data.set(i, other.data[i]);
            i = i + 1;
        }
        proof {
            assert(self.data@ =~= other.data@);
        }
    }
}

/// A small standalone frame pool keeping free and used pages apart;
/// frames move between the lists as they are handed out and reclaimed.
pub struct Memory {
    pub free_list: Vec<Page>,
    pub used_list: Vec<Page>,
}

impl Memory {
    /// Builds a pool of 31 free frames with descending base tags and an
    /// empty used list.
    pub fn new(page_size: usize) -> (m: Memory)
        ensures
            m.free_list@.len() == 31,
            forall|k: int|
                0 <= k < 31 ==> (m.free_list@[k].addr == 31 - k && m.free_list@[k].owner is None
                    && m.free_list@[k].data@.len() == page_size),
            m.used_list@.len() == 0,
    {
        let mut v: Vec<Page> = Vec::new();
        let mut ppn: u64 = 1;
        while ppn < 32
            invariant
                1 <= ppn <= 32,
                v@.len() == ppn - 1,
                forall|k: int|
                    0 <= k < ppn - 1 ==> (v@[k].addr == 31 - k && v@[k].owner is None
                        && v@[k].data@.len() == page_size),
            decreases 32 - ppn,
        {
            v.push(Page::new(32 - ppn, page_size));
            ppn = ppn + 1;
        }
        Memory { free_list: v, used_list: Vec::new() }
    }

    /// Takes the most recently freed frame out of the pool, zeroed.
    pub fn pop_free(&mut self) -> (r: Option<Page>)
        ensures
            old(self).free_list@.len() == 0 ==> (r is None && final(self).free_list@ == old(
                self,
            ).free_list@ && final(self).used_list@ == old(self).used_list@),
            old(self).free_list@.len() > 0 ==> (final(self).free_list@ == old(
                self,
            ).free_list@.drop_last() && final(self).used_list@ == old(self).used_list@
                && r is Some && r->0.addr == old(self).free_list@.last().addr && r->0.owner == old(
                self,
            ).free_list@.last().owner && r->0.data@.len() == old(
                self,
            ).free_list@.last().data@.len() && (forall|k: int|
                0 <= k < r->0.data@.len() ==> r->0.data@[k] == 0)),
    {
        match self.free_list.pop() {
            Some(mut page) => {
                page.zero();
                Some(page)
            },
            None => None,
        }
    }

    /// Returns a frame to the free pool.
    pub fn push_free(&mut self, page: Page)
        ensures
            final(self).free_list@ == old(self).free_list@.push(page),
            final(self).used_list@ == old(self).used_list@,
    {
        self.free_list.push(page);
    }

    /// Records a frame as handed out.
    pub fn push_used(&mut self, page: Page)
        ensures
            final(self).used_list@ == old(self).used_list@.push(page),
            final(self).free_list@ == old(self).free_list@,
    {
        self.used_list.push(page);
    }

    /// Removes from the used list the last frame whose base address
    /// matches the given one, and hands it back; nothing changes when no
    /// frame matches.
    pub fn remove_used(&mut self, page: &Page) -> (r: Option<Page>)
        ensures
            (exists|i: int|
                0 <= i < old(self).used_list@.len() && old(self).used_list@[i].addr
                    == page.addr) ==> (exists|i: int|
                {
                    &&& 0 <= i < old(self).used_list@.len()
                    &&& old(self).used_list@[i].addr == page.addr
                    &&& forall|j: int|
                        i < j < old(self).used_list@.len() ==> old(self).used_list@[j].addr
                            != page.addr
                    &&& r == Some(old(self).used_list@[i])
                    &&& final(self).used_list@ == old(self).used_list@.remove(i)
                }),
            (forall|i: int|
                0 <= i < old(self).used_list@.len() ==> old(self).used_list@[i].addr
                    != page.addr) ==> (r is None && final(self).used_list@ == old(
                self,
            ).used_list@),
            final(self).free_list@ == old(self).free_list@,
    {
        let n = self.used_list.len();
        let mut idx: usize = n;
        let mut i: usize = 0;
        while i < n
            invariant
                n == self.used_list@.len(),
                *self == *old(self),
                i <= n,
                idx == n || (idx < i && self.used_list@[idx as int].addr == page.addr),
                forall|j: int| idx < j < i ==> self.used_list@[j].addr != page.addr,
                idx == n ==> forall|j: int| 0 <= j < i ==> self.used_list@[j].addr != page.addr,
            decreases n - i,
        {
            if self.used_list[i].addr == page.addr {
                idx = i;
            }
            i = i + 1;
        }
        if idx != n {
            return Some(self.used_list.remove(idx));
        }
        return None;
    }

    /// A mutable borrow of the most recently used frame.
    pub fn used_peek(&mut self) -> (r: &mut Page)
        requires
            old(self).used_list@.len() > 0,
        ensures
            *r == old(self).used_list@.last(),
            final(self).free_list@ == old(self).free_list@,
            final(self).used_list@ == old(self).used_list@.update(
                old(self).used_list@.len() - 1,
                *final(r),
            ),
    {
        let idx = self.used_list.len() - 1;
        &mut self.used_list[idx]
    }
}

} // verus!
