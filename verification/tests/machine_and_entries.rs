//! Tests of the machine's process bookkeeping, the decoded entry
//! format, and the event-loop scaffolding.

use sosim::ext::{_From, _Into};
use sosim::lang::event::{EventLoop, EventLoopTerm};
use sosim::mem::config::MemContext;
use sosim::mem::BitMode;
use sosim::paging::{PTEntry, RawPTEntry};
use sosim::Machine;

#[test]
fn mod_bool_from_u64() {
    let t = <bool as _From<u64>>::_from(1);
    let f = <bool as _From<u64>>::_from(0);
    assert!(t && !f);
}

#[test]
fn mod_u64_from_bool() {
    let nt: u64 = true._into();
    let nf: u64 = false._into();
    assert_eq!(nt, 0b1);
    assert_eq!(nf, 0);
}

#[test]
fn fpte_from_raw_pwr() {
    let raw = 0b10111; // Auto extension
    let rawpte = RawPTEntry::new(raw);
    let fpte = PTEntry::from(rawpte);
    let comp = PTEntry::new(true, true, true, 0b10);
    assert_eq!(comp, fpte);
}

#[test]
fn fpte_from_raw_p() {
    let raw = 0b10001; // Auto extension
    let rawpte = RawPTEntry::new(raw);
    let fpte = PTEntry::from(rawpte);
    let comp = PTEntry::new(true, false, false, 0b10);
    assert_eq!(comp, fpte);
}

#[test]
fn fpte_from_raw_pr() {
    let raw = 0b10101; // Auto extension
    let rawpte = RawPTEntry::new(raw);
    let fpte = PTEntry::from(rawpte);
    let comp = PTEntry::new(true, false, true, 0b10);
    assert_eq!(comp, fpte);
}

#[test]
fn bool_from_u32_round() {
    assert!(<bool as _From<u32>>::_from(3));
    assert!(!<bool as _From<u32>>::_from(0));
    let one: u32 = true._into();
    assert_eq!(one, 1);
}

#[test]
fn machine_process_lifecycle() {
    let ctxt = MemContext::new_for(BitMode::Bit8);
    let mut machine = Machine::new(&ctxt);
    assert!(machine.get_process(0).is_none());
    machine.create_process();
    machine.create_process();
    assert_eq!(machine.get_process(0).unwrap().id, 0);
    assert_eq!(machine.get_process(1).unwrap().id, 1);
    assert_eq!(machine.mem_context(), &ctxt);
    assert_eq!(machine.kill_process(5), None);
    assert_eq!(machine.kill_process(0), Some(()));
    // position 0 now holds the process created second
    assert_eq!(machine.get_process(1).unwrap().id, 1);
    assert!(machine.get_process(0).is_none());
}

#[test]
fn event_loop_runs_to_done() {
    let ev = EventLoop::init_interpreter_loop(false);
    assert!(!ev.threaded);
    let term = ev.run(|_line: String| {});
    assert!(matches!(term, EventLoopTerm::Done));
}
