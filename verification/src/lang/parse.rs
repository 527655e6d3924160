//! The request shapes the command mini-language produces: allocate,
//! deallocate, write, read, plus the interpreter-only exit and debug
//! commands.

use vstd::prelude::*;

verus! {

/// A scalar of the mini-language: one signed 8-bit word.
pub type Scalar = i8;

/// An aggregate: one or more scalars allocated together.
pub type Aggr = Vec<Scalar>;

/// A raw address as written in a command.
pub type AddrToParse = u64;

/// An allocation request: the words to place, the base address, and an
/// optional label (no surface syntax produces one yet).
#[derive(Debug, PartialEq, Eq)]
pub struct _AllocReq {
    pub aggr: Aggr,
    pub at: Option<AddrToParse>,
    pub label: Option<String>,
}

/// A deallocation request.
#[derive(Debug, PartialEq, Eq)]
pub struct _DeallocReq {
    pub at: AddrToParse,
}

/// A request to write one word at an address.
#[derive(Debug, PartialEq, Eq)]
pub struct _WriteReq {
    pub at: AddrToParse,
    pub scalar: Scalar,
}

/// A request to read the word at an address.
#[derive(Debug, PartialEq, Eq)]
pub struct _ReadReq {
    pub at: AddrToParse,
}

/// One parsed command of the mini-language.
#[derive(Debug, PartialEq, Eq)]
pub enum Command {
    Alloc(_AllocReq),
    Write(_WriteReq),
    Read(_ReadReq),
    Dealloc(_DeallocReq),
    Exit,
    Debug,
}

} // verus!
