//! Tests of the memory bank: frame pool setup, allocation bookkeeping,
//! reads and writes, and the stack discipline.

use sosim::fault::FaultType;
use sosim::mem::config::MemContext;
use sosim::mem::{BitMode, Memory};

#[test]
fn mem_new_32b() {
    let ctxt = MemContext::new_for(BitMode::Bit32);
    let mem = Memory::new(&ctxt);
    let itr = mem.mmu.free_list.windows(2);
    for i in itr {
        let a = i[0].addr;
        let b = i[1].addr;
        assert_eq!(b - a, ctxt.page_size);
    }
}

#[test]
fn mem_new_8b() {
    let ctxt = MemContext::new_for(BitMode::Bit8);
    let mem = Memory::new(&ctxt);
    let itr = mem.mmu.free_list.windows(2);
    for i in itr {
        let a = i[0].addr;
        let b = i[1].addr;
        assert_eq!(b - a, ctxt.page_size);
    }
}

#[test]
fn presets_validate() {
    for mode in [BitMode::Bit8, BitMode::Bit16, BitMode::Bit32, BitMode::Bit64] {
        assert!(MemContext::new_for(mode).validate());
    }
}

#[test]
fn broken_context_rejected() {
    let mut ctxt = MemContext::new_for(BitMode::Bit8);
    ctxt.page_size = 4095; // not a power of two
    assert!(!ctxt.validate());
    let mut ctxt2 = MemContext::new_for(BitMode::Bit8);
    ctxt2.physical_mem_sz = 12; // not page_size * page_count
    assert!(!ctxt2.validate());
}

#[test]
fn scenario_alloc_write_read() {
    // an 8-bit mode bank: allocate one byte in frame 1 (frame 0 is the
    // null frame and the stack region sits at the bottom of frame 0),
    // write 42 there, read 42 back
    let ctxt = MemContext::new_for(BitMode::Bit8);
    let mut mem = Memory::new(&ctxt);
    assert!(mem._alloc(4096, 1, 0));
    assert_eq!(mem._write_at_addr_checked(4096, &[42]), Some(()));
    assert_eq!(mem._read_at_checked(4096), Some(Ok(42)));
}

#[test]
fn alloc_rejected_inside_stack_region() {
    // address 0 lies inside the reserved stack region, so the checked
    // allocation is a no-op
    let ctxt = MemContext::new_for(BitMode::Bit8);
    let mut mem = Memory::new(&ctxt);
    assert!(!mem._alloc(0, 1, 0));
    assert_eq!(mem._read_at_checked(0), None);
}

#[test]
fn alloc_rejected_past_physical_memory() {
    let ctxt = MemContext::new_for(BitMode::Bit8);
    let mut mem = Memory::new(&ctxt);
    assert!(!mem._alloc(ctxt.physical_mem_sz, 1, 0));
}

#[test]
fn alloc_exclusive() {
    // a second allocation at the same base is a no-op: the registry
    // keeps the first allocation's length
    let ctxt = MemContext::new_for(BitMode::Bit8);
    let mut mem = Memory::new(&ctxt);
    assert!(mem._alloc(4096, 3, 1));
    assert!(!mem._alloc(4096, 5, 2));
    let blob = mem.mmu.allocations.get(&4096).unwrap();
    assert_eq!(blob.2, 3);
}

#[test]
fn null_frame_reads_zero() {
    // frame 0 has base address 0: the null-page convention reads it as
    // zero at every offset, even after a write landed in its buffer
    let ctxt = MemContext::new_for(BitMode::Bit8);
    let mut mem = Memory::new(&ctxt);
    assert_eq!(mem.read_at(5), Ok(0));
    assert_eq!(mem._write_at_addr(5, &[7]), Some(()));
    assert_eq!(mem.read_at(5), Ok(0));
}

#[test]
fn read_past_physical_memory_faults() {
    let ctxt = MemContext::new_for(BitMode::Bit8);
    let mem = Memory::new(&ctxt);
    let r = mem.read_at(ctxt.physical_mem_sz);
    match r {
        Err(f) => assert!(matches!(f._type, FaultType::AddrOutOfRange(a) if a == ctxt.physical_mem_sz)),
        Ok(_) => panic!("a read past physical memory must fault"),
    }
}

#[test]
fn scenario_stack_overflow() {
    // a stack of capacity 2: two pushes succeed, the third overflows
    let mut ctxt = MemContext::new_for(BitMode::Bit8);
    ctxt.stack_sz = 2;
    assert!(ctxt.validate());
    let mut mem = Memory::new(&ctxt);
    assert_eq!(mem._push(10), Ok(()));
    assert_eq!(mem._push(20), Ok(()));
    match mem._push(30) {
        Err(f) => assert!(matches!(f._type, FaultType::StackOverflow(2))),
        Ok(_) => panic!("the third push must overflow"),
    }
}

#[test]
fn pop_on_empty_stack_is_unrecoverable() {
    let ctxt = MemContext::new_for(BitMode::Bit8);
    let mut mem = Memory::new(&ctxt);
    match mem._pop() {
        Err(f) => assert!(matches!(f._type, FaultType::Unrecoverable)),
        Ok(_) => panic!("popping an empty stack must fail"),
    }
}

#[test]
fn push_then_pop() {
    // the stack region sits in frame 0, the null frame, so the byte
    // read back follows the null-page convention
    let ctxt = MemContext::new_for(BitMode::Bit8);
    let mut mem = Memory::new(&ctxt);
    assert_eq!(mem._push(9), Ok(()));
    assert_eq!(mem.ram.stack.sp, 1);
    assert_eq!(mem._pop(), Ok(0));
    assert_eq!(mem.ram.stack.sp, 0);
}

#[test]
fn scenario_dealloc_ownership() {
    // the frame covering address 100 belongs to process 1: process 2's
    // owned deallocation is a no-op, process 1's removes the allocation
    let ctxt = MemContext::new_for(BitMode::Bit8);
    let mut mem = Memory::new(&ctxt);
    assert!(mem._alloc(100, 1, 1));
    assert_eq!(mem.dealloc_owned(100, 2), None);
    assert!(mem.mmu.allocations.contains_key(&100));
    assert_eq!(mem.dealloc_owned(100, 1), Some(()));
    assert!(!mem.mmu.allocations.contains_key(&100));
}

#[test]
fn dealloc_is_permissive() {
    let ctxt = MemContext::new_for(BitMode::Bit8);
    let mut mem = Memory::new(&ctxt);
    assert!(mem._alloc(200, 2, 7));
    assert_eq!(mem._dealloc(200), Some(()));
    assert_eq!(mem._dealloc(200), None);
}

#[test]
fn dealloc_outside_stack_spares_stack_region() {
    let ctxt = MemContext::new_for(BitMode::Bit8);
    let mut mem = Memory::new(&ctxt);
    assert!(mem._alloc(4096, 1, 0));
    assert_eq!(mem.dealloc_outside_stack(10), None);
    assert_eq!(mem.dealloc_outside_stack(4096), Some(()));
    assert!(!mem.mmu.allocations.contains_key(&4096));
}

#[test]
fn write_clips_to_frame_boundary() {
    // a write reaching past the frame's end is clipped, not a panic
    let ctxt = MemContext::new_for(BitMode::Bit8);
    let mut mem = Memory::new(&ctxt);
    let last = ctxt.page_size * 2 - 1; // last byte of frame 1
    assert_eq!(mem._write_at_addr(last, &[1, 2, 3]), Some(()));
    assert_eq!(mem.read_at(last), Ok(1));
    // the overflowing bytes never reached frame 2
    assert_eq!(mem.read_at(last + 1), Ok(0));
}
