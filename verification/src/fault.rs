//! Faults and exceptions.
//!
//! Faults are plain values: every fallible operation returns one in its
//! `Result` rather than aborting. Translation misses raise `AddrOutOfRange`
//! or `NullPointerDeref`, capacity violations raise `StackOverflow`,
//! popping an empty stack raises `Unrecoverable`, and `BufferOverflow` is
//! reserved for multi-byte accesses past an allocation's recorded length.

use vstd::prelude::*;

verus! {

/// The kind of a fault, tagged with the raw address at which it arose
/// where one exists.
#[derive(Clone, Copy, Debug, PartialEq, Eq, Structural)]
pub enum FaultType {
    BufferOverflow(u64),
    StackOverflow(u64),
    NullPointerDeref(u64),
    AddrOutOfRange(u64),
    Unrecoverable,
}

/// A fault value, constructed at the failure point and propagated by
/// ordinary `Result` returns.
#[derive(Clone, Copy, Debug, PartialEq, Eq, Structural)]
pub struct Fault {
    pub _type: FaultType,
}

impl Fault {
    /// Wraps a fault kind into a fault value.
    pub fn _from(typ: FaultType) -> (f: Fault)
        ensures
            f._type == typ,
    {
        Fault { _type: typ }
    }
}

} // verus!
