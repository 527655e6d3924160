//! Small conversion traits between primitive integers and booleans,
//! used when decoding raw page-table entry bitsets.

use vstd::prelude::*;

verus! {

/// Conversion into `Self` from a value of type `T`.
pub trait _From<T>: Sized {
    /// What the conversion yields.
    spec fn from_spec(t: T) -> Self;

    fn _from(t: T) -> (r: Self)
        ensures
            r == Self::from_spec(t),
    ;
}

/// Conversion of `&self` into a value of type `T`.
pub trait _Into<T> {
    /// What the conversion yields.
    spec fn into_spec(&self) -> T;

    fn _into(&self) -> (r: T)
        ensures
            r == self.into_spec(),
    ;
}

impl _From<u64> for bool {
    /// Zero is false; every other value is true.
    open spec fn from_spec(t: u64) -> bool {
        t != 0
    }

    fn _from(t: u64) -> bool {
        if t == 0 {
            return false;
        }
        true
    }
}

impl _Into<u64> for bool {
    /// True is one; false is zero.
    open spec fn into_spec(&self) -> u64 {
        if *self {
            1
        } else {
            0
        }
    }

    fn _into(&self) -> u64 {
        if *self {
            return 0b1;
        }
        0b0
    }
}

impl _From<u32> for bool {
    /// Zero is false; every other value is true.
    open spec fn from_spec(t: u32) -> bool {
        t != 0
    }

    fn _from(t: u32) -> bool {
        if t == 0 {
            false
        } else {
            true
        }
    }
}

impl _Into<u32> for bool {
    /// True is one; false is zero.
    open spec fn into_spec(&self) -> u32 {
        if *self {
            1
        } else {
            0
        }
    }

    fn _into(&self) -> u32 {
        if *self {
            0b1
        } else {
            0b0
        }
    }
}

} // verus!
