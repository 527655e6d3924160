//! Addresses and the address codec.
//!
//! A raw address is decomposed into an in-page offset and up to four
//! page-table level indices, driven entirely by the [`MemContext`]
//! geometry; [`VirtualAddress::to_addr`] is the inverse. Level fields
//! beyond the configured level count are absent and never participate
//! in translation. Bits above the configured total width are silently
//! discarded by decomposition, not validated.

use super::config::MemContext;
use vstd::arithmetic::div_mod::{
    lemma_breakdown, lemma_div_denominator, lemma_mod_division_less_than_divisor, lemma_small_mod,
};
use vstd::arithmetic::mul::{lemma_mul_inequality, lemma_mul_is_distributive_add_other_way};
use vstd::arithmetic::power2::{
    lemma2_to64, lemma2_to64_rest, lemma_pow2_adds, lemma_pow2_pos, lemma_pow2_strictly_increases,
    pow2,
};
use vstd::bits::{lemma_u64_low_bits_mask_is_mod, lemma_u64_shl_is_mul, lemma_u64_shr_is_div};
use vstd::prelude::*;

verus! {

/// A general-purpose thin wrapper around a raw 64-bit address.
#[derive(Clone, Copy, Debug, PartialEq, Eq, PartialOrd, Ord, Structural)]
pub struct Addr {
    pub inner: u64,
}

impl Addr {
    /// Wraps a raw address.
    pub fn new(raw: u64) -> (a: Addr)
        ensures
            a.inner == raw,
    {
        Addr { inner: raw }
    }
}

/// Bit position at which level field `i` of a decomposed address starts:
/// the offset field occupies the low bits, then the level fields follow
/// in order, all of one width.
pub open spec fn field_shift(ctxt: MemContext, i: int) -> nat {
    (ctxt.v_addr_off_len + i * ctxt.v_addr_lvl_len) as nat
}

/// The in-page offset of a raw address: its low `v_addr_off_len` bits.
pub open spec fn spec_offset_of(raw: u64, ctxt: MemContext) -> nat {
    raw as nat % pow2(ctxt.v_addr_off_len as nat)
}

/// Level index `i` of a raw address: the `v_addr_lvl_len`-bit field
/// starting at `field_shift(ctxt, i)`.
pub open spec fn spec_level_index(raw: u64, ctxt: MemContext, i: int) -> nat {
    (raw as nat / pow2(field_shift(ctxt, i))) % pow2(ctxt.v_addr_lvl_len as nat)
}

/// A virtual address split into its page-table level fields — absent when
/// the configuration runs fewer than four levels — and an in-page offset.
#[derive(Clone, Copy, Debug, PartialEq, Eq, PartialOrd, Ord, Structural)]
pub struct VirtualAddress {
    pub lvl1: Option<u16>,
    pub lvl2: Option<u16>,
    pub lvl3: Option<u16>,
    pub lvl4: Option<u16>,
    pub offset: u16,
}

impl VirtualAddress {
    /// The level fields in order, level 1 nearest the offset field.
    pub open spec fn lvls(self) -> Seq<Option<u16>> {
        seq![self.lvl1, self.lvl2, self.lvl3, self.lvl4]
    }

    /// The integer a level field contributes to composition: an absent
    /// level contributes zero.
    pub open spec fn level_val(self, i: int) -> int {
        match self.lvls()[i] {
            Some(x) => x as int,
            None => 0,
        }
    }

    /// This value holds exactly the fields that decomposing `raw` under
    /// `ctxt` yields.
    pub open spec fn is_decomposition_of(self, raw: u64, ctxt: MemContext) -> bool {
        &&& self.offset == spec_offset_of(raw, ctxt)
        &&& forall|i: int|
            0 <= i < ctxt.pt_levels ==> self.lvls()[i] == Some(
                spec_level_index(raw, ctxt, i) as u16,
            )
        &&& forall|i: int| ctxt.pt_levels <= i < 4 ==> self.lvls()[i] is None
    }

    /// Shape agreement with a configuration: exactly the configured levels
    /// are present, and every field fits its configured width.
    pub open spec fn wf_for(self, ctxt: MemContext) -> bool {
        &&& (self.offset as nat) < pow2(ctxt.v_addr_off_len as nat)
        &&& forall|i: int|
            0 <= i < ctxt.pt_levels ==> (self.lvls()[i] is Some && (self.lvls()[i]->0 as nat)
                < pow2(ctxt.v_addr_lvl_len as nat))
        &&& forall|i: int| ctxt.pt_levels <= i < 4 ==> self.lvls()[i] is None
    }

    /// Manual creation of a virtual address, outside any bit context.
    pub fn new(
        lvl1: Option<u16>,
        lvl2: Option<u16>,
        lvl3: Option<u16>,
        lvl4: Option<u16>,
        page_offset: u16,
    ) -> (v: VirtualAddress)
        ensures
            v == (VirtualAddress { lvl1, lvl2, lvl3, lvl4, offset: page_offset }),
    {
        Self { lvl1, lvl2, lvl3, lvl4, offset: page_offset }
    }

    /// The level field at position `i` (0-based), as stored.
    pub fn level(&self, i: usize) -> (r: Option<u16>)
        requires
            i < 4,
        ensures
            r == self.lvls()[i as int],
    {
        match i {
            0 => self.lvl1,
            1 => self.lvl2,
            2 => self.lvl3,
            _ => self.lvl4,
        }
    }

    /// Decomposes a raw address into offset and level fields under the
    /// running configuration. Bits above the configured width are
    /// discarded without complaint.
    pub fn from_addr(_raw: u64, memctxt: &MemContext) -> (v: VirtualAddress)
        requires
            memctxt.wf(),
        ensures
            v.is_decomposition_of(_raw, *memctxt),
            v.wf_for(*memctxt),
    {
        let ctxt = *memctxt;
        proof {
            lemma2_to64();
            lemma_u64_low_bits_mask_is_mod(_raw, ctxt.v_addr_off_len as nat);
            lemma_pow2_strictly_increases(ctxt.v_addr_off_len as nat, 17);
            lemma_pow2_strictly_increases(16, 17);
            if (ctxt.v_addr_off_len as nat) < 16 {
                lemma_pow2_strictly_increases(ctxt.v_addr_off_len as nat, 16);
            }
            lemma_u64_shr_is_div(_raw, ctxt.v_addr_off_len as u64);
        }
        let offset = (_raw & ctxt.off_mask) as u16;
        let mut lvls: Vec<Option<u16>> = Vec::new();
        let mut lvls_bin: u64 = _raw >> (ctxt.v_addr_off_len as u64);
        let mut i: usize = 0;

        while i < ctxt.pt_levels as usize
            invariant
                ctxt.wf(),
                i <= ctxt.pt_levels,
                lvls@.len() == i,
                lvls_bin as nat == _raw as nat / pow2(field_shift(ctxt, i as int)),
                forall|j: int|
                    0 <= j < i ==> lvls@[j] == Some(spec_level_index(_raw, ctxt, j) as u16),
            decreases ctxt.pt_levels - i,
        {
            proof {
                lemma2_to64();
                lemma_u64_low_bits_mask_is_mod(lvls_bin, ctxt.v_addr_lvl_len as nat);
                lemma_mod_division_less_than_divisor(
                    lvls_bin as int,
                    pow2(ctxt.v_addr_lvl_len as nat) as int,
                );
                lemma_pow2_pos(ctxt.v_addr_lvl_len as nat);
                if (ctxt.v_addr_lvl_len as nat) < 16 {
                    lemma_pow2_strictly_increases(ctxt.v_addr_lvl_len as nat, 16);
                }
                lemma_u64_shr_is_div(lvls_bin, ctxt.v_addr_lvl_len as u64);
                lemma_pow2_pos(field_shift(ctxt, i as int));
                lemma_div_denominator(
                    _raw as int,
                    pow2(field_shift(ctxt, i as int)) as int,
                    pow2(ctxt.v_addr_lvl_len as nat) as int,
                );
                lemma_pow2_adds(field_shift(ctxt, i as int), ctxt.v_addr_lvl_len as nat);
                lemma_shift_bounds(ctxt, i as int);
            }
            let v = (lvls_bin & ctxt.lvl_mask) as u16;
            lvls.push(Some(v));
            lvls_bin = lvls_bin >> (ctxt.v_addr_lvl_len as u64);
            i = i + 1;
        }
        while i < 4
            invariant
                ctxt.pt_levels <= 4,
                ctxt.pt_levels <= i <= 4,
                lvls@.len() == i,
                forall|j: int|
                    0 <= j < ctxt.pt_levels ==> lvls@[j] == Some(
                        spec_level_index(_raw, ctxt, j) as u16,
                    ),
                forall|j: int| ctxt.pt_levels <= j < i ==> lvls@[j] is None,
            decreases 4 - i,
        {
            lvls.push(None);
            i = i + 1;
        }
        let result = Self { lvl1: lvls[0], lvl2: lvls[1], lvl3: lvls[2], lvl4: lvls[3], offset };
        proof {
            assert forall|k: int| 0 <= k < ctxt.pt_levels implies (result.lvls()[k] is Some && (
            result.lvls()[k]->0 as nat) < pow2(ctxt.v_addr_lvl_len as nat)) by {
                lemma2_to64();
                lemma_mod_division_less_than_divisor(
                    (_raw as nat / pow2(field_shift(ctxt, k))) as int,
                    pow2(ctxt.v_addr_lvl_len as nat) as int,
                );
                lemma_pow2_pos(ctxt.v_addr_lvl_len as nat);
                if (ctxt.v_addr_lvl_len as nat) < 16 {
                    lemma_pow2_strictly_increases(ctxt.v_addr_lvl_len as nat, 16);
                }
            }
        }
        result
    }

    /// Partial composition: the contribution of level fields strictly
    /// below `i` to the reassembled address.
    pub open spec fn compose_below(self, ctxt: MemContext, i: int) -> int
        decreases i,
    {
        if i <= 0 {
            0
        } else {
            self.compose_below(ctxt, i - 1) + self.level_val(i - 1) * pow2(
                field_shift(ctxt, i - 1),
            )
        }
    }

    /// The raw address this decomposed value reassembles to: the offset
    /// plus every configured level field shifted to its position.
    pub open spec fn spec_compose(self, ctxt: MemContext) -> int {
        self.offset + self.compose_below(ctxt, ctxt.pt_levels as int)
    }

    /// Reassembles the raw address by the symmetric shift-and-add.
    pub fn to_addr(&self, memctxt: &MemContext) -> (a: Addr)
        requires
            memctxt.wf(),
            self.wf_for(*memctxt),
        ensures
            a.inner == self.spec_compose(*memctxt),
    {
        let ctxt = *memctxt;
        let mut acc: u64 = self.offset as u64;
        let mut i: usize = 0;
        proof {
            lemma_bound_total(ctxt);
        }
        while i < ctxt.pt_levels as usize
            invariant
                ctxt.wf(),
                self.wf_for(ctxt),
                i <= ctxt.pt_levels,
                acc as int == self.offset + self.compose_below(ctxt, i as int),
                (acc as nat) < pow2(field_shift(ctxt, i as int)),
                pow2(field_shift(ctxt, ctxt.pt_levels as int)) <= pow2(64),
            decreases ctxt.pt_levels - i,
        {
            proof {
                lemma_shift_bounds(ctxt, i as int);
                vstd::arithmetic::mul::lemma_mul_upper_bound(
                    i as int,
                    4,
                    ctxt.v_addr_lvl_len as int,
                    16,
                );
            }
            let sh: u64 = ctxt.v_addr_off_len as u64 + (i as u64) * (ctxt.v_addr_lvl_len as u64);
            let lv: u64 = match self.level(i) {
                Some(x) => x as u64,
                None => 0,
            };
            proof {
                lemma2_to64();
                lemma2_to64_rest();
                let shp = field_shift(ctxt, i as int);
                let w = ctxt.v_addr_lvl_len as nat;
                assert(sh as nat == shp);
                assert((lv as nat) < pow2(w));
                lemma_pow2_adds(shp, w);
                lemma_pow2_pos(shp);
                lemma_pow2_pos(w);
                // (lv + 1) * 2^sh <= 2^w * 2^sh == 2^shift(i+1)
                lemma_mul_inequality(lv as int + 1, pow2(w) as int, pow2(shp) as int);
                lemma_mul_is_distributive_add_other_way(pow2(shp) as int, lv as int, 1);
                assert(lv * pow2(shp) + pow2(shp) <= pow2(field_shift(ctxt, i as int + 1)));
                if field_shift(ctxt, i as int + 1) < 64 {
                    lemma_pow2_strictly_increases(field_shift(ctxt, i as int + 1), 64);
                }
                assert(lv * pow2(shp) <= u64::MAX);
                lemma_u64_shl_is_mul(lv, sh);
            }
            let term: u64 = lv << sh;
            acc = acc + term;
            i = i + 1;
        }
        Addr { inner: acc }
    }
}

/// The shift of every configured field position stays below the address
/// width, and one more level-width still fits it.
proof fn lemma_shift_bounds(ctxt: MemContext, i: int)
    requires
        ctxt.wf(),
        0 <= i < ctxt.pt_levels,
    ensures
        field_shift(ctxt, i) + ctxt.v_addr_lvl_len == field_shift(ctxt, i + 1),
        field_shift(ctxt, i + 1) <= ctxt.addr_width,
        field_shift(ctxt, i) < 64,
{
    lemma_mul_inequality(i + 1, ctxt.pt_levels as int, ctxt.v_addr_lvl_len as int);
    lemma_mul_is_distributive_add_other_way(ctxt.v_addr_lvl_len as int, i, 1);
}

/// The total configured width is at most 64 bits, so every composed
/// address fits a `u64`.
proof fn lemma_bound_total(ctxt: MemContext)
    requires
        ctxt.wf(),
    ensures
        pow2(field_shift(ctxt, ctxt.pt_levels as int)) <= pow2(64),
        pow2(64) == 0x10000000000000000,
{
    lemma2_to64();
    lemma2_to64_rest();
    if field_shift(ctxt, ctxt.pt_levels as int) < 64 {
        lemma_pow2_strictly_increases(field_shift(ctxt, ctxt.pt_levels as int), 64);
    }
}

/// Composition below level `i` recovers the low bits of the original
/// address: the inductive heart of the round-trip law.
proof fn lemma_compose_partial(v: VirtualAddress, raw: u64, ctxt: MemContext, i: int)
    requires
        ctxt.wf(),
        v.is_decomposition_of(raw, ctxt),
        0 <= i <= ctxt.pt_levels,
    ensures
        v.offset + v.compose_below(ctxt, i) == raw as nat % pow2(field_shift(ctxt, i)),
    decreases i,
{
    lemma2_to64();
    if i == 0 {
        vstd::arithmetic::mul::lemma_mul_basics(ctxt.v_addr_lvl_len as int);
        assert(field_shift(ctxt, 0) == ctxt.v_addr_off_len as nat);
    } else {
        lemma_compose_partial(v, raw, ctxt, i - 1);
        lemma_pow2_pos(field_shift(ctxt, i - 1));
        lemma_pow2_pos(ctxt.v_addr_lvl_len as nat);
        // level value i-1 is the quotient's low field
        let sh = field_shift(ctxt, i - 1);
        let w = ctxt.v_addr_lvl_len as nat;
        lemma_mod_division_less_than_divisor((raw as nat / pow2(sh)) as int, pow2(w) as int);
        if w < 16 {
            lemma_pow2_strictly_increases(w, 16);
        }
        assert(v.level_val(i - 1) == spec_level_index(raw, ctxt, i - 1));
        lemma_breakdown(raw as int, pow2(sh) as int, pow2(w) as int);
        lemma_pow2_adds(sh, w);
        lemma_mul_is_distributive_add_other_way(ctxt.v_addr_lvl_len as int, i - 1, 1);
        assert(field_shift(ctxt, i) == sh + w);
        assert(pow2(field_shift(ctxt, i)) == pow2(sh) * pow2(w));
        assert(raw as int % (pow2(sh) * pow2(w)) as int == pow2(sh) * ((raw as int / pow2(sh)
            as int) % pow2(w) as int) + raw as int % pow2(sh) as int);
    }
}

/// Round-trip law: decomposing a raw address whose bits above the
/// configured total width are clear and composing the result yields the
/// address back unchanged.
pub proof fn lemma_compose_of_decompose(v: VirtualAddress, raw: u64, ctxt: MemContext)
    requires
        ctxt.wf(),
        v.is_decomposition_of(raw, ctxt),
        (raw as nat) < pow2(field_shift(ctxt, ctxt.pt_levels as int)),
    ensures
        v.spec_compose(ctxt) == raw,
{
    lemma_compose_partial(v, raw, ctxt, ctxt.pt_levels as int);
    lemma_small_mod(raw as nat, pow2(field_shift(ctxt, ctxt.pt_levels as int)));
}

/// Extracts one raw field of an address: field 0 is the in-page offset,
/// field `idx >= 1` is level index `idx - 1`.
pub fn _mask(raw: u64, ctxt: &MemContext, idx: u8) -> (r: u64)
    requires
        ctxt.wf(),
        idx <= ctxt.pt_levels,
    ensures
        idx == 0 ==> r == spec_offset_of(raw, *ctxt),
        idx >= 1 ==> r == spec_level_index(raw, *ctxt, idx - 1),
{
    proof {
        lemma2_to64();
        if (ctxt.v_addr_off_len as nat) < 16 {
            lemma_pow2_strictly_increases(ctxt.v_addr_off_len as nat, 16);
        }
        if (ctxt.v_addr_lvl_len as nat) < 16 {
            lemma_pow2_strictly_increases(ctxt.v_addr_lvl_len as nat, 16);
        }
        lemma_u64_low_bits_mask_is_mod(raw, ctxt.v_addr_off_len as nat);
    }
    if idx == 0 {
        raw & ctxt.off_mask
    } else {
        proof {
            lemma_shift_bounds(*ctxt, idx - 1);
            vstd::arithmetic::mul::lemma_mul_upper_bound(
                idx - 1,
                3,
                ctxt.v_addr_lvl_len as int,
                16,
            );
        }
        let sh: u64 = ctxt.v_addr_off_len as u64 + ((idx - 1) as u64) * (ctxt.v_addr_lvl_len
            as u64);
        let shifted = raw >> sh;
        proof {
            assert(sh as nat == field_shift(*ctxt, idx - 1));
            lemma_u64_shr_is_div(raw, sh);
            lemma_u64_low_bits_mask_is_mod(shifted, ctxt.v_addr_lvl_len as nat);
        }
        shifted & ctxt.lvl_mask
    }
}

} // verus!
