//! Page-table entries and decoded page tables. An entry is a 64-bit word:
//! bit 0 is the present flag, bits 12 to 63 hold the page-aligned physical
//! address of the next table (or of the final frame at the last level); bits
//! 1 to 11 are reserved and forced to zero on construction.

use vstd::prelude::*;

use crate::addr::PhysAddr;

verus! {

/// Mask of the address bits a page-table entry carries: bits 12 to 63.
pub const PTE_ADDR_MASK: u64 = 0xFFFF_FFFF_FFFF_F000;

/// Whether an entry with these bits is marked present.
pub open spec fn spec_pte_present(bits: u64) -> bool {
    bits & 1 > 0
}

/// The physical address an entry with these bits points at.
pub open spec fn spec_pte_addr(bits: u64) -> u64 {
    bits & PTE_ADDR_MASK
}

/// The bits of a present entry pointing at `target`.
pub open spec fn spec_pte_present_bits(target: u64) -> u64 {
    (target & PTE_ADDR_MASK) | 1
}

/// One slot of a page table.
#[derive(Clone, Copy, PartialEq, Eq, Structural, Debug)]
pub struct PageTableEntry {
    pub bits: u64,
}

impl PageTableEntry {
    /// A present entry pointing at `target`; the offset bits of `target`
    /// are cleared and the reserved bits 1 to 11 come out zero.
    pub fn new_present(target: PhysAddr) -> (r: Self)
        ensures
            r.bits == spec_pte_present_bits(target@),
    {
        PageTableEntry { bits: (target.0 & PTE_ADDR_MASK) | 1 }
    }

    /// An entry that maps nothing.
    pub fn new_unmapped() -> (r: Self)
        ensures
            r.bits == 0,
    {
        PageTableEntry { bits: 0 }
    }

    /// Rebuild an entry from its stored bits.
    pub fn from_bits(bits: u64) -> (r: Self)
        ensures
            r.bits == bits,
    {
        PageTableEntry { bits }
    }

    pub fn is_present(self) -> (r: bool)
        ensures
            r == spec_pte_present(self.bits),
    {
        self.bits & 1 > 0
    }

    pub fn phys_addr(self) -> (r: PhysAddr)
        ensures
            r@ == spec_pte_addr(self.bits),
    {
        PhysAddr(self.bits & PTE_ADDR_MASK)
    }
}

/// A page table decoded out of physical memory: 512 entries, one page in
/// size. A table is never a free-standing object in the simulated machine;
/// it is read from and written to `Memory` entry by entry.
pub struct PageTable {
    pub entries: Vec<PageTableEntry>,
}

impl PageTable {
    pub open spec fn wf(&self) -> bool {
        self.entries@.len() == 512
    }

    pub fn entry(&self, index: usize) -> (r: PageTableEntry)
        requires
            self.wf(),
            index < 512,
        ensures
            r == self.entries@[index as int],
    {
        self.entries[index]
    }

    /// How many of the 512 entries are marked present.
    pub fn num_mapped_entries(&self) -> (r: usize)
        requires
            self.wf(),
        ensures
            r == count_present(self.entries@, 512),
    {
        let mut count: usize = 0;
        let mut i: usize = 0;
        while i < 512
            invariant
                self.wf(),
                i <= 512,
                count == count_present(self.entries@, i as int),
                count <= i,
            decreases 512 - i,
        {
            if self.entries[i].is_present() {
                count = count + 1;
            }
            i = i + 1;
        }
        count
    }
}

/// How many of the first `n` entries are marked present.
pub open spec fn count_present(entries: Seq<PageTableEntry>, n: int) -> int
    decreases n,
{
    if n <= 0 {
        0
    } else {
        count_present(entries, n - 1) + if spec_pte_present(entries[n - 1].bits) {
            1int
        } else {
            0int
        }
    }
}

} // verus!
