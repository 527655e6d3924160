//! Tests of address decomposition and composition.

use sosim::mem::addr::{VirtualAddress, _mask};
use sosim::mem::config::MemContext;
use sosim::mem::BitMode;

const RAW_ADDR: u64 = 0b0000000000000000111100000000001111111111000000000011111111110000;

#[test]
fn vaddr_from_raw_addr_64b() {
    let ctxt = MemContext::new_for(BitMode::Bit64);
    let vaddr = VirtualAddress::from_addr(RAW_ADDR, &ctxt);
    let offset = 0b111111110000;
    let lvl1 = 0b000000011;
    let lvl2 = 0b111111000;
    let lvl3 = 0b000001111;
    let lvl4 = 0b111100000;
    assert_eq!(offset, vaddr.offset);
    assert_eq!(lvl1, vaddr.lvl1.unwrap());
    assert_eq!(lvl2, vaddr.lvl2.unwrap());
    assert_eq!(lvl3, vaddr.lvl3.unwrap());
    assert_eq!(lvl4, vaddr.lvl4.unwrap());
}

#[test]
fn vaddr_round_trip_64b() {
    // the raw address keeps its bits below the configured 48-bit total,
    // so composing the decomposition yields it back unchanged
    let ctxt = MemContext::new_for(BitMode::Bit64);
    let vaddr = VirtualAddress::from_addr(RAW_ADDR, &ctxt);
    assert_eq!(vaddr.to_addr(&ctxt).inner, RAW_ADDR);
}

#[test]
fn vaddr_round_trip_32b() {
    let ctxt = MemContext::new_for(BitMode::Bit32);
    let raw: u64 = 0b00111111111000000000011111111110;
    let vaddr = VirtualAddress::from_addr(raw, &ctxt);
    assert_eq!(vaddr.lvl3, None);
    assert_eq!(vaddr.lvl4, None);
    assert_eq!(vaddr.to_addr(&ctxt).inner, raw);
}

#[test]
fn vaddr_discards_high_bits() {
    // bits above the configured 48-bit total are silently dropped
    let ctxt = MemContext::new_for(BitMode::Bit64);
    let low: u64 = RAW_ADDR;
    let high = low | (0xff << 48);
    let va = VirtualAddress::from_addr(high, &ctxt);
    let vb = VirtualAddress::from_addr(low, &ctxt);
    assert_eq!(va, vb);
    assert_eq!(va.to_addr(&ctxt).inner, low);
}

#[test]
fn mask_extracts_fields() {
    let ctxt = MemContext::new_for(BitMode::Bit64);
    assert_eq!(_mask(RAW_ADDR, &ctxt, 0), 0b111111110000);
    assert_eq!(_mask(RAW_ADDR, &ctxt, 1), 0b000000011);
    assert_eq!(_mask(RAW_ADDR, &ctxt, 4), 0b111100000);
}

#[test]
fn vaddr_manual_new() {
    let v = VirtualAddress::new(Some(1), Some(2), None, None, 7);
    assert_eq!(v.lvl1, Some(1));
    assert_eq!(v.lvl2, Some(2));
    assert_eq!(v.lvl3, None);
    assert_eq!(v.offset, 7);
}
