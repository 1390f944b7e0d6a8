//! The page-table capability: a per-address-space mapping of page-aligned
//! virtual addresses to physical pages with access-mode flags.
//!
//! One implementation exists per hardware paging scheme; this model records
//! the mappings themselves, while installing a table on a core is left to the
//! hardware layer driving the kernel.

use vstd::prelude::*;
use std::collections::HashMap;
use crate::pages::PAGE_SIZE;

verus! {

broadcast use vstd::std_specs::hash::group_hash_axioms;

/// Access-mode flags for a mapped page, bitwise-combinable.
#[derive(Debug, Clone, Copy, PartialEq, Eq, Structural)]
pub struct Mode {
    pub bits: u8,
}

impl Mode {
    /// The page is reachable from user-mode code.
    pub fn user() -> (m: Mode)
        ensures
            m.bits == 0x01,
    {
        Mode { bits: 0x01 }
    }

    /// The page may be read.
    pub fn read() -> (m: Mode)
        ensures
            m.bits == 0x08,
    {
        Mode { bits: 0x08 }
    }

    /// The page may be written.
    pub fn write() -> (m: Mode)
        ensures
            m.bits == 0x10,
    {
        Mode { bits: 0x10 }
    }

    /// The page may be executed.
    pub fn execute() -> (m: Mode)
        ensures
            m.bits == 0x20,
    {
        Mode { bits: 0x20 }
    }

    /// All four flags combined: read, write, execute, user.
    pub fn rwxu() -> (m: Mode)
        ensures
            m.bits == 0x39,
    {
        Mode { bits: 0x39 }
    }

    /// The combination of the flags of `self` and `other`.
    pub fn union(self, other: Mode) -> (m: Mode)
        ensures
            m.bits == self.bits | other.bits,
    {
        Mode { bits: self.bits | other.bits }
    }

    /// Whether every flag of `other` is also set in `self`.
    pub fn contains(self, other: Mode) -> (r: bool)
        ensures
            r == (self.bits & other.bits == other.bits),
    {
        self.bits & other.bits == other.bits
    }
}

/// One page-table entry: the physical page a virtual page maps to, and the
/// access mode it was mapped with.  A physical page is addressed by its
/// position in the owning address space.
#[derive(Debug, Clone, Copy, PartialEq, Eq, Structural)]
pub struct MapEntry {
    pub phys: usize,
    pub mode: Mode,
}

/// A page table: virtual page addresses to entries.
#[derive(Debug)]
pub struct PageTable {
    entries: HashMap<usize, MapEntry>,
}

impl View for PageTable {
    type V = Map<usize, MapEntry>;

    closed spec fn view(&self) -> Map<usize, MapEntry> {
        self.entries@
    }
}

impl PageTable {
    /// A fresh table holding only the kernel's own identity mapping, which
    /// lies outside the user address range and is not recorded here.
    pub fn new_kernel_mapped() -> (pt: PageTable)
        ensures
            pt@ == Map::<usize, MapEntry>::empty(),
    {
        PageTable { entries: HashMap::new() }
    }

    /// Maps the page-aligned virtual address `virt` to the physical page
    /// `phys`; an existing mapping of `virt` is replaced.  Mapping a
    /// misaligned address is a fatal configuration error and is excluded.
    pub fn map(&mut self, virt: usize, phys: usize, mode: Mode)
        requires
            virt % PAGE_SIZE == 0,
        ensures
            final(self)@ == old(self)@.insert(virt, (MapEntry { phys, mode })),
    {
        self.entries.insert(virt, MapEntry { phys, mode });
    }

    /// Looks a virtual address up in the table.
    pub fn get(&self, virt: usize) -> (r: Option<&MapEntry>)
        ensures
            match r {
                Some(e) => self@.contains_key(virt) && *e == self@[virt],
                None => !self@.contains_key(virt),
            },
    {
        self.entries.get(&virt)
    }

    /// Whether `virt` is mapped at all.
    pub fn is_mapped(&self, virt: usize) -> (r: bool)
        ensures
            r == self@.contains_key(virt),
    {
        self.entries.contains_key(&virt)
    }
}

} // verus!
