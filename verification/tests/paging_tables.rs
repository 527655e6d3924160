//! Tests of page-table entries, tables, the translation walk and the
//! frame pool.

use sosim::ext::{_From, _Into};
use sosim::fault::FaultType;
use sosim::mem::addr::VirtualAddress;
use sosim::mem::config::MemContext;
use sosim::mem::paging::{Flag, Memory, Page, PageDirectory, PageTable, PageTableEntry};
use sosim::mem::BitMode;

#[test]
fn paging_bool_from_u64() {
    let t = <bool as _From<u64>>::_from(1);
    let f = <bool as _From<u64>>::_from(0);
    assert!(t && !f);
}

#[test]
fn paging_u64_from_bool() {
    let nt: u64 = true._into();
    let nf: u64 = false._into();
    assert_eq!(nt, 0b1);
    assert_eq!(nf, 0);
}

#[test]
fn pte_flags_and_address() {
    let mut e = PageTableEntry::new(5);
    assert_eq!(e.get_address().inner, 5 << 12);
    assert!(!e.get_flag(Flag::Present));
    e.set_flag(Flag::Present);
    e.set_flag(Flag::Dirty);
    assert!(e.get_flag(Flag::Present));
    assert!(e.get_flag(Flag::Dirty));
    assert!(!e.get_flag(Flag::Writable));
    assert_eq!(e.get_address().inner, 5 << 12);
    e.clear_flag(Flag::Present);
    assert!(!e.get_flag(Flag::Present));
    assert!(e.get_flag(Flag::Dirty));
}

#[test]
fn table_add_and_get() {
    let mut t = PageTable::new_init(16);
    let e = PageTableEntry::new(3);
    assert_eq!(t.add_pte(e, None), None);
    assert_eq!(t.add_pte(e, Some(20)), None);
    assert_eq!(t.add_pte(e, Some(4)), Some(()));
    assert_eq!(t._get_frame_addr(Some(4)).unwrap().inner, 3 << 12);
    assert!(t._get_frame_addr(Some(5)).is_none());
    assert!(t._get_frame_addr(None).is_none());
}

#[test]
fn single_table_translation() {
    let mut t = PageTable::new_init(16);
    let mut e = PageTableEntry::new(2);
    e.set_flag(Flag::Present);
    t.add_pte(e, Some(3)).unwrap();
    let hit = VirtualAddress::new(Some(3), None, None, None, 5);
    assert_eq!(t.translation(&hit).unwrap().inner, (2 << 12) + 5);
    let miss = VirtualAddress::new(Some(9), None, None, None, 5);
    assert!(matches!(
        t.translation(&miss).unwrap_err()._type,
        FaultType::AddrOutOfRange(9)
    ));
}

#[test]
fn single_table_null_deref() {
    let mut t = PageTable::new_init(16);
    let e = PageTableEntry::new(2); // present flag stays clear
    t.add_pte(e, Some(3)).unwrap();
    let v = VirtualAddress::new(Some(3), None, None, None, 5);
    assert!(matches!(
        t.translation(&v).unwrap_err()._type,
        FaultType::NullPointerDeref(_)
    ));
}

#[test]
fn scenario_translation_miss() {
    // an empty directory misses on every address
    let ctxt = MemContext::new_for(BitMode::Bit32);
    let dir = PageDirectory::new(&ctxt);
    for raw in [0u64, 5, 4096, 0xfffff] {
        match dir.translate(raw, &ctxt) {
            Err(f) => assert!(matches!(f._type, FaultType::AddrOutOfRange(a) if a == raw)),
            Ok(_) => panic!("an empty directory must miss"),
        }
    }
}

#[test]
fn directory_translates_mapped_address() {
    let ctxt = MemContext::new_for(BitMode::Bit32);
    // raw address: offset 5, level-0 index 3, level-1 index 1
    let raw: u64 = 5 | (3 << 12) | (1 << 21);

    let mut t0 = PageTable::new_init(512);
    let mut e0 = PageTableEntry::new(7);
    e0.set_flag(Flag::Present);
    t0.add_pte(e0, Some(3)).unwrap();

    let mut t1 = PageTable::new_init(512);
    t1.add_pte(PageTableEntry::new(0), Some(1)).unwrap();

    let mut dir = PageDirectory::new(&ctxt);
    dir.set_level(0, t0);
    dir.set_level(1, t1);

    assert_eq!(dir.translate(raw, &ctxt), Ok((7 << 12) | 5));

    // the same walk twice agrees: translation is deterministic
    assert_eq!(dir.translate(raw, &ctxt), dir.translate(raw, &ctxt));

    // an address whose level-0 entry is absent misses
    let other: u64 = 5 | (4 << 12) | (1 << 21);
    assert!(dir.translate(other, &ctxt).is_err());
}

#[test]
fn directory_null_deref() {
    let ctxt = MemContext::new_for(BitMode::Bit32);
    let raw: u64 = 5 | (3 << 12) | (1 << 21);

    let mut t0 = PageTable::new_init(512);
    t0.add_pte(PageTableEntry::new(7), Some(3)).unwrap(); // not present

    let mut t1 = PageTable::new_init(512);
    t1.add_pte(PageTableEntry::new(0), Some(1)).unwrap();

    let mut dir = PageDirectory::new(&ctxt);
    dir.set_level(0, t0);
    dir.set_level(1, t1);

    match dir.translate(raw, &ctxt) {
        Err(f) => assert!(matches!(f._type, FaultType::NullPointerDeref(a) if a == raw)),
        Ok(_) => panic!("a non-present entry must raise a null dereference"),
    }
}

#[test]
fn page_read_write_clipped() {
    let mut p = Page {
        data: vec![0; 16],
        addr: 32,
        owner: None,
    };
    p.write(40, &[1, 2, 3]);
    assert_eq!(p.read(40, 3), vec![1, 2, 3]);
    // a write reaching past the buffer is clipped
    p.write(46, &[7, 8, 9]);
    assert_eq!(p.read(46, 2), vec![7, 8]);
    assert_eq!(p.addr().inner, 32);
}

#[test]
fn page_null_reads_zero() {
    let p = Page {
        data: vec![5; 16],
        addr: 0,
        owner: None,
    };
    assert_eq!(p.read(7, 3), vec![0, 0, 0]);
}

#[test]
fn page_copy() {
    let mut a = Page {
        data: vec![0; 4],
        addr: 4096,
        owner: None,
    };
    let b = Page {
        data: vec![9, 8, 7, 6],
        addr: 8192,
        owner: Some(1),
    };
    a.copy(&b);
    assert_eq!(a.data, vec![9, 8, 7, 6]);
    assert_eq!(a.addr, 4096);
    assert_eq!(a.owner, None);
}

#[test]
fn pool_new_and_pop() {
    let mut pool = Memory::new(64);
    assert_eq!(pool.free_list.len(), 31);
    assert_eq!(pool.free_list[0].addr, 31);
    assert_eq!(pool.free_list[30].addr, 1);
    let p = pool.pop_free().unwrap();
    assert_eq!(p.addr, 1);
    assert!(p.data.iter().all(|b| *b == 0));
    assert_eq!(pool.free_list.len(), 30);
}

#[test]
fn pool_used_list_round_trip() {
    let mut pool = Memory::new(64);
    let p = pool.pop_free().unwrap();
    let probe = Page {
        data: vec![0; 64],
        addr: p.addr,
        owner: None,
    };
    pool.push_used(p);
    assert_eq!(pool.used_list.len(), 1);
    let taken = pool.remove_used(&probe).unwrap();
    assert_eq!(taken.addr, probe.addr);
    assert_eq!(pool.used_list.len(), 0);
    assert!(pool.remove_used(&probe).is_none());
    pool.push_free(taken);
    assert_eq!(pool.free_list.len(), 31);
}
