//! A virtual-address view of a stack region, tied to the translation
//! structures and the physical memory backing it.

use super::addr::VirtualAddress;
use super::Ram;
use crate::paging::PageDirectory;
use vstd::prelude::*;

verus! {

/// A downward-growing stack described in virtual addresses: its moving
/// top, its fixed bottom, its total size, and the mapping and physical
/// memory behind it.
pub struct Stack<'a> {
    pub top: VirtualAddress,
    pub base: VirtualAddress,
    pub size: usize,
    pub page_table: &'a PageDirectory,
    pub ram: &'a Ram,
}

} // verus!
