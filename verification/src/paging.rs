//! An alternate page-table representation whose entries keep their
//! flags as plain booleans, decoded from a raw 64-bit bitset that
//! serializes only the present, write and read bits plus the frame
//! address payload — deliberately simpler than the full hardware
//! format.

use crate::ext::{_From, _Into};
use crate::mem::addr::Addr;
use vstd::prelude::*;

verus! {

/// Mask selecting the frame-address payload of a raw entry: 51 bits.
pub const _PTE_PHYS_ADDR_FR_MASK: u64 = 0x7ffffffffffff;

/// A raw page-table entry: the 64-bit bitset as the hardware would
/// store it.
#[derive(Clone, Copy, Debug, PartialEq, Eq, Structural)]
pub struct RawPTEntry {
    pub bitset: u64,
}

impl RawPTEntry {
    /// Wraps a raw bitset.
    pub fn new(bitset: u64) -> (r: Self)
        ensures
            r.bitset == bitset,
    {
        Self { bitset }
    }
}

/// A decoded page-table entry: flag booleans plus the physical frame
/// address payload.
#[derive(Clone, Copy, Debug, PartialEq, Eq, Structural)]
pub struct PTEntry {
    pub present: bool,
    pub write: bool,
    pub read: bool,
    pub phys_frame_addr: u64,
}

impl PTEntry {
    /// Builds an entry from its parts.
    pub fn new(present: bool, write: bool, read: bool, phys_frame_addr: u64) -> (r: Self)
        ensures
            r == (PTEntry { present, write, read, phys_frame_addr }),
    {
        Self { present, write, read, phys_frame_addr }
    }
}

impl vstd::std_specs::convert::FromSpecImpl<RawPTEntry> for PTEntry {
    open spec fn obeys_from_spec() -> bool {
        true
    }

    /// Decoding a raw bitset: bit 0 is present, bit 1 write, bit 2
    /// read, and the masked bits from 3 on are the frame address.
    open spec fn from_spec(r: RawPTEntry) -> PTEntry {
        PTEntry {
            present: r.bitset & 0b1 != 0,
            write: (r.bitset >> 1u64) & 0b1 != 0,
            read: (r.bitset >> 2u64) & 0b1 != 0,
            phys_frame_addr: (r.bitset >> 3u64) & _PTE_PHYS_ADDR_FR_MASK,
        }
    }
}

impl From<RawPTEntry> for PTEntry {
    /// Decodes a raw bitset into flag booleans and the address payload.
    fn from(r: RawPTEntry) -> (e: Self) {
        let bits = r.bitset;
        let present = <bool as _From<u64>>::_from(bits & 0b1);
        let write = <bool as _From<u64>>::_from((bits >> 1u64) & 0b1);
        let read = <bool as _From<u64>>::_from((bits >> 2u64) & 0b1);
        let phys_frame_addr = (bits >> 3u64) & _PTE_PHYS_ADDR_FR_MASK;
        proof {
            let b = r.bitset;
            assert((b & 0b1 == 0 <==> !(b & 0b1 != 0)) && ((b >> 1u64) & 0b1 == 0 <==> !((b
                >> 1u64) & 0b1 != 0)) && ((b >> 2u64) & 0b1 == 0 <==> !((b >> 2u64) & 0b1 != 0)))
                by (bit_vector);
        }
        Self { present, write, read, phys_frame_addr }
    }
}

/// A single-level page table over decoded entries: a fixed number of
/// optional slots, hard-indexed by one decomposed level field.
pub struct PageTable {
    arr: Vec<Option<PTEntry>>,
}

impl View for PageTable {
    type V = Seq<Option<PTEntry>>;

    closed spec fn view(&self) -> Seq<Option<PTEntry>> {
        self.arr@
    }
}

impl PageTable {
    /// Creates a table of `page_count` absent slots.
    pub fn new_init(page_count: usize) -> (t: PageTable)
        ensures
            t@.len() == page_count,
            forall|i: int| 0 <= i < page_count ==> t@[i] is None,
    {
        let mut arr: Vec<Option<PTEntry>> = Vec::new();
        let mut i: usize = 0;
        while i < page_count
            invariant
                i <= page_count,
                arr@.len() == i,
                forall|j: int| 0 <= j < i ==> arr@[j] is None,
            decreases page_count - i,
        {
            arr.push(None);
            i = i + 1;
        }
        PageTable { arr }
    }

    /// Stores an entry at the slot a decomposed level field selects;
    /// fails without mutation when the field is absent or the slot lies
    /// outside the fixed capacity.
    pub fn add_pte(&mut self, pte: PTEntry, at_addr: Option<u16>) -> (r: Option<()>)
        ensures
            match at_addr {
                Some(i) => {
                    if (i as int) < old(self)@.len() {
                        r == Some(()) && final(self)@ == old(self)@.update(i as int, Some(pte))
                    } else {
                        r is None && final(self)@ == old(self)@
                    }
                },
                None => r is None && final(self)@ == old(self)@,
            },
    {
        match at_addr {
            None => None,
            Some(i) => {
                if (i as usize) < self.arr.len() {
                    self.arr.set(i as usize, Some(pte));
                    Some(())
                } else {
                    None
                }
            },
        }
    }

    /// Retrieves the physical frame base address for the entry at
    /// `at_addr`, or nothing when the field, the slot or the entry is
    /// absent.
    pub fn _get_frame_addr(&self, at_addr: Option<u16>) -> (r: Option<Addr>)
        ensures
            match at_addr {
                Some(i) => {
                    if (i as int) < self@.len() && self@[i as int] is Some {
                        r == Some(Addr { inner: self@[i as int]->0.phys_frame_addr })
                    } else {
                        r is None
                    }
                },
                None => r is None,
            },
    {
        match at_addr {
            None => None,
            Some(i) => {
                if (i as usize) < self.arr.len() {
                    match self.arr[i as usize] {
                        Some(e) => Some(Addr::new(e.phys_frame_addr)),
                        None => None,
                    }
                } else {
                    None
                }
            },
        }
    }
}

/// A multi-level translation root over decoded entries: one optional
/// table per level, up to four.
pub struct PageDirectory {
    pub levels: Vec<Option<PageTable>>,
}

impl PageDirectory {
    /// Creates a directory of `level_count` absent tables.
    pub fn new(level_count: usize) -> (d: PageDirectory)
        ensures
            d.levels@.len() == level_count,
            forall|i: int| 0 <= i < level_count ==> d.levels@[i] is None,
    {
        let mut levels: Vec<Option<PageTable>> = Vec::new();
        let mut i: usize = 0;
        while i < level_count
            invariant
                i <= level_count,
                levels@.len() == i,
                forall|j: int| 0 <= j < i ==> levels@[j] is None,
            decreases level_count - i,
        {
            levels.push(None);
            i = i + 1;
        }
        PageDirectory { levels }
    }
}

} // verus!
