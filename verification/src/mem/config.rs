//! The machine's memory context: bit-mode, paging masks and geometry.
//!
//! A `MemContext` is built once at process start — from a named preset or
//! from an external configuration record validated by [`MemContext::validate`]
//! — and passed by reference into every component constructor. It is never
//! mutated afterward and never read as ambient global state.

use super::BitMode;
use vstd::arithmetic::power2::{lemma2_to64, pow2};
use vstd::bits::{lemma_u64_shl_is_mul, low_bits_mask};
use vstd::prelude::*;

verus! {

/// Process-wide address geometry: how a raw address splits into level
/// fields and an offset, how large and how many the physical frames are,
/// and where the stack region lies.
#[derive(Clone, Copy, Debug, PartialEq, Eq, Structural)]
pub struct MemContext {
    /// The preset this context was derived from.
    pub bit_mode: BitMode,
    /// Total significant width of a raw address, in bits (at most 64).
    pub addr_width: u8,
    /// Number of page-table levels in use (at most 4).
    pub pt_levels: u8,
    /// Width in bits of one level-index field of a virtual address.
    pub v_addr_lvl_len: u8,
    /// Width in bits of the in-page offset field of a virtual address.
    pub v_addr_off_len: u8,
    /// Mask extracting one level-index field: `2^v_addr_lvl_len - 1`.
    pub lvl_mask: u64,
    /// Mask extracting the offset field: `2^v_addr_off_len - 1`.
    pub off_mask: u64,
    /// Bytes per page/frame: `2^v_addr_off_len`.
    pub page_size: u64,
    /// Number of physical frames.
    pub page_count: usize,
    /// Total physical bytes: `page_size * page_count`.
    pub physical_mem_sz: u64,
    /// First byte of the reserved stack region.
    pub stack_base: u64,
    /// Size in bytes of the reserved stack region.
    pub stack_sz: u64,
}

impl MemContext {
    /// The configuration invariants: field widths fit the address width,
    /// masks and page size are the powers of two the widths dictate, the
    /// physical size is the product of frame size and count, and the stack
    /// region lies inside physical memory.
    pub open spec fn wf(self) -> bool {
        &&& self.pt_levels <= 4
        &&& 1 <= self.v_addr_lvl_len <= 16
        &&& 1 <= self.v_addr_off_len <= 16
        &&& self.addr_width <= 64
        &&& self.v_addr_off_len + self.pt_levels * self.v_addr_lvl_len <= self.addr_width
        &&& self.page_size == pow2(self.v_addr_off_len as nat)
        &&& self.off_mask == low_bits_mask(self.v_addr_off_len as nat)
        &&& self.lvl_mask == low_bits_mask(self.v_addr_lvl_len as nat)
        &&& 0 < self.page_count
        &&& self.page_size * self.page_count == self.physical_mem_sz
        &&& self.stack_base + self.stack_sz <= self.physical_mem_sz
    }

    /// The field values of each named preset.
    pub open spec fn spec_preset(mode: BitMode) -> MemContext {
        match mode {
            BitMode::Bit8 => MemContext {
                bit_mode: BitMode::Bit8,
                addr_width: 64,
                pt_levels: 4,
                v_addr_lvl_len: 9,
                v_addr_off_len: 12,
                lvl_mask: 0x1ff,
                off_mask: 0xfff,
                page_size: 4096,
                page_count: 512,
                physical_mem_sz: 0x200000,
                stack_base: 0,
                stack_sz: 64,
            },
            BitMode::Bit16 => MemContext {
                bit_mode: BitMode::Bit16,
                addr_width: 16,
                pt_levels: 1,
                v_addr_lvl_len: 4,
                v_addr_off_len: 12,
                lvl_mask: 0xf,
                off_mask: 0xfff,
                page_size: 4096,
                page_count: 16,
                physical_mem_sz: 0x10000,
                stack_base: 0,
                stack_sz: 64,
            },
            BitMode::Bit32 => MemContext {
                bit_mode: BitMode::Bit32,
                addr_width: 32,
                pt_levels: 2,
                v_addr_lvl_len: 9,
                v_addr_off_len: 12,
                lvl_mask: 0x1ff,
                off_mask: 0xfff,
                page_size: 4096,
                page_count: 512,
                physical_mem_sz: 0x200000,
                stack_base: 0,
                stack_sz: 64,
            },
            BitMode::Bit64 => MemContext {
                bit_mode: BitMode::Bit64,
                addr_width: 64,
                pt_levels: 4,
                v_addr_lvl_len: 9,
                v_addr_off_len: 12,
                lvl_mask: 0x1ff,
                off_mask: 0xfff,
                page_size: 4096,
                page_count: 512,
                physical_mem_sz: 0x200000,
                stack_base: 0,
                stack_sz: 64,
            },
        }
    }

    /// Builds the named preset. Every preset satisfies the invariants.
    pub fn new_for(mode: BitMode) -> (c: MemContext)
        ensures
            c == Self::spec_preset(mode),
            c.wf(),
    {
        proof {
            lemma2_to64();
            vstd::bits::lemma_low_bits_mask_values();
        }
        match mode {
            BitMode::Bit8 => MemContext {
                bit_mode: BitMode::Bit8,
                addr_width: 64,
                pt_levels: 4,
                v_addr_lvl_len: 9,
                v_addr_off_len: 12,
                lvl_mask: 0x1ff,
                off_mask: 0xfff,
                page_size: 4096,
                page_count: 512,
                physical_mem_sz: 0x200000,
                stack_base: 0,
                stack_sz: 64,
            },
            BitMode::Bit16 => MemContext {
                bit_mode: BitMode::Bit16,
                addr_width: 16,
                pt_levels: 1,
                v_addr_lvl_len: 4,
                v_addr_off_len: 12,
                lvl_mask: 0xf,
                off_mask: 0xfff,
                page_size: 4096,
                page_count: 16,
                physical_mem_sz: 0x10000,
                stack_base: 0,
                stack_sz: 64,
            },
            BitMode::Bit32 => MemContext {
                bit_mode: BitMode::Bit32,
                addr_width: 32,
                pt_levels: 2,
                v_addr_lvl_len: 9,
                v_addr_off_len: 12,
                lvl_mask: 0x1ff,
                off_mask: 0xfff,
                page_size: 4096,
                page_count: 512,
                physical_mem_sz: 0x200000,
                stack_base: 0,
                stack_sz: 64,
            },
            BitMode::Bit64 => MemContext {
                bit_mode: BitMode::Bit64,
                addr_width: 64,
                pt_levels: 4,
                v_addr_lvl_len: 9,
                v_addr_off_len: 12,
                lvl_mask: 0x1ff,
                off_mask: 0xfff,
                page_size: 4096,
                page_count: 512,
                physical_mem_sz: 0x200000,
                stack_base: 0,
                stack_sz: 64,
            },
        }
    }

    /// Decides whether this context satisfies the configuration invariants.
    /// A context read from an external declarative record must pass this
    /// check before any component is built on it.
    pub fn validate(&self) -> (r: bool)
        ensures
            r == self.wf(),
    {
        if self.pt_levels > 4 {
            return false;
        }
        if self.v_addr_lvl_len < 1 || self.v_addr_lvl_len > 16 {
            return false;
        }
        if self.v_addr_off_len < 1 || self.v_addr_off_len > 16 {
            return false;
        }
        if self.addr_width > 64 {
            return false;
        }
        proof {
            vstd::arithmetic::mul::lemma_mul_upper_bound(
                self.pt_levels as int,
                4,
                self.v_addr_lvl_len as int,
                16,
            );
        }
        let total: u32 = self.v_addr_off_len as u32 + (self.pt_levels as u32) * (self.v_addr_lvl_len
            as u32);
        if total > self.addr_width as u32 {
            return false;
        }
        proof {
            lemma2_to64();
            lemma_u64_shl_is_mul(1u64, self.v_addr_off_len as u64);
            lemma_u64_shl_is_mul(1u64, self.v_addr_lvl_len as u64);
            assert(pow2(self.v_addr_off_len as nat) <= pow2(16)) by {
                if self.v_addr_off_len < 16 {
                    vstd::arithmetic::power2::lemma_pow2_strictly_increases(
                        self.v_addr_off_len as nat,
                        16,
                    );
                }
            }
            assert(pow2(self.v_addr_lvl_len as nat) <= pow2(16)) by {
                if self.v_addr_lvl_len < 16 {
                    vstd::arithmetic::power2::lemma_pow2_strictly_increases(
                        self.v_addr_lvl_len as nat,
                        16,
                    );
                }
            }
        }
        let ps: u64 = 1u64 << (self.v_addr_off_len as u64);
        let lm: u64 = 1u64 << (self.v_addr_lvl_len as u64);
        if self.page_size != ps {
            return false;
        }
        if self.off_mask != ps - 1 {
            return false;
        }
        if self.lvl_mask != lm - 1 {
            return false;
        }
        if self.page_count == 0 {
            return false;
        }
        if self.page_count as u64 > u64::MAX / ps {
            proof {
                // were the context well formed, the physical size (a u64)
                // would bound the product, and so the count
                if self.page_size * self.page_count <= u64::MAX {
                    vstd::arithmetic::div_mod::lemma_div_is_ordered(
                        (self.page_size * self.page_count) as int,
                        u64::MAX as int,
                        self.page_size as int,
                    );
                    vstd::arithmetic::div_mod::lemma_div_by_multiple(
                        self.page_count as int,
                        self.page_size as int,
                    );
                    vstd::arithmetic::mul::lemma_mul_is_commutative(
                        self.page_count as int,
                        self.page_size as int,
                    );
                }
            }
            return false;
        }
        proof {
            vstd::arithmetic::div_mod::lemma_remainder_lower(u64::MAX as int, ps as int);
            vstd::arithmetic::mul::lemma_mul_inequality(
                self.page_count as int,
                (u64::MAX / ps) as int,
                ps as int,
            );
        }
        let total_bytes: u64 = self.page_size * (self.page_count as u64);
        if self.physical_mem_sz != total_bytes {
            return false;
        }
        if self.stack_base > total_bytes || self.stack_sz > total_bytes - self.stack_base {
            return false;
        }
        true
    }
}

} // verus!
