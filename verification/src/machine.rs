//! The machine: one flat physical memory, one TLB, one L1 data cache and a
//! root table pointer, with the translate / read / map / unmap / invalidate
//! operations that compose them. Every operation's contract equates its
//! effect with the corresponding step function of the model, so a run is a
//! pure function of the starting state and the actions applied.

use vstd::prelude::*;

use crate::addr::{PhysAddr, VirtAddr};
use crate::cache::{L1dCache, L1dCacheEntry};
use crate::memory::Memory;
use crate::model::{
    spec_map_page, spec_pte_at, spec_read, spec_read_enabled, spec_read_phys,
    spec_read_phys_enabled, spec_run, spec_run_enabled, spec_step, spec_step_enabled,
    spec_table_edit_enabled, spec_translate, spec_translate_enabled, spec_unmap_page, Action,
    lemma_run_take_step,
    MachineView,
};
use crate::page::{PageTable, PageTableEntry};
use crate::stat::Stats;
use crate::tlb::Tlb;

verus! {

/// The failure of a translation: some level of the walk found a non-present
/// entry. Recoverable; the machine stays usable.
#[derive(Clone, Copy, Debug, PartialEq, Eq, Structural)]
pub struct PageFault;

/// The table decoded from `mem` at `loc`, as 512 entries.
pub open spec fn spec_table_at(mem: Seq<u8>, loc: u64) -> Seq<PageTableEntry> {
    Seq::new(512, |i: int| PageTableEntry { bits: spec_pte_at(mem, loc, i as u64) })
}

pub struct Machine {
    pub cr3: PhysAddr,
    pub tlb: Tlb,
    pub memory: Memory,
    pub cache: L1dCache,
    pub stats: Stats,
}

impl View for Machine {
    type V = MachineView;

    open spec fn view(&self) -> MachineView {
        MachineView {
            cr3: self.cr3@,
            tlb: self.tlb@,
            mem: self.memory@,
            cache: self.cache@,
            stats: self.stats,
        }
    }
}

impl Machine {
    pub open spec fn wf(&self) -> bool {
        self@.wf()
    }

    /// A machine with `mb` megabytes of zeroed memory, an empty TLB, an
    /// empty cache and zeroed counters, rooted at `cr3`.
    pub fn new(cr3: PhysAddr, mb: usize) -> (r: Self)
        requires
            mb * 0x100000 <= usize::MAX,
        ensures
            r.wf(),
            r@.cr3 == cr3@,
            r@.tlb == crate::tlb::spec_empty_tlb(),
            r@.cache == crate::cache::spec_empty_cache(),
            r@.stats == crate::stat::spec_stats_zero(),
            r@.mem.len() == mb * 0x100000,
            forall|i: int| 0 <= i < r@.mem.len() ==> r@.mem[i] == 0u8,
    {
        Machine {
            cr3,
            tlb: Tlb::empty(),
            memory: Memory::megabytes(mb),
            cache: L1dCache::empty(),
            stats: Stats::new(),
        }
    }

    /// Write a present entry pointing at `target_frame` into slot
    /// `table_entry` of the table at `table_location`. No translation cached
    /// in the TLB is invalidated by this: stale translations persist until
    /// `invalidate_tlb` is called.
    pub fn map_page(&mut self, table_location: PhysAddr, table_entry: usize, target_frame: PhysAddr)
        requires
            old(self).wf(),
            spec_table_edit_enabled(old(self)@, table_location@, table_entry as u64),
        ensures
            final(self).wf(),
            final(self)@ == spec_map_page(
                old(self)@,
                table_location@,
                table_entry as u64,
                target_frame@,
            ),
    {
        let _mem_len: usize = self.memory.len();
        let entry = PageTableEntry::new_present(target_frame);
        self.memory.write_u64(table_location.bits() + 8 * (table_entry as u64), entry.bits);
        proof {
            assert(self@ =~= spec_map_page(
                old(self)@,
                table_location@,
                table_entry as u64,
                target_frame@,
            ));
        }
    }

    /// Write a non-present entry into that slot. As with `map_page`, the
    /// TLB is left alone.
    pub fn unmap_page(&mut self, table_location: PhysAddr, table_entry: usize)
        requires
            old(self).wf(),
            spec_table_edit_enabled(old(self)@, table_location@, table_entry as u64),
        ensures
            final(self).wf(),
            final(self)@ == spec_unmap_page(old(self)@, table_location@, table_entry as u64),
    {
        let _mem_len: usize = self.memory.len();
        let entry = PageTableEntry::new_unmapped();
        self.memory.write_u64(table_location.bits() + 8 * (table_entry as u64), entry.bits);
        proof {
            assert(self@ =~= spec_unmap_page(old(self)@, table_location@, table_entry as u64));
        }
    }

    /// Drop every cached translation.
    pub fn invalidate_tlb(&mut self)
        requires
            old(self).wf(),
        ensures
            final(self).wf(),
            final(self)@ == crate::model::spec_invalidate_tlb(old(self)@),
    {
        self.tlb = Tlb::empty();
        proof {
            assert(self@ =~= crate::model::spec_invalidate_tlb(old(self)@));
        }
    }

    /// Drop every cached line.
    pub fn invalidate_cache(&mut self)
        requires
            old(self).wf(),
        ensures
            final(self).wf(),
            final(self)@ == crate::model::spec_invalidate_cache(old(self)@),
    {
        self.cache = L1dCache::empty();
        proof {
            assert(self@ =~= crate::model::spec_invalidate_cache(old(self)@));
        }
    }

    /// Translate a virtual address. The TLB is checked first; on a hit the
    /// cached frame is combined with the page offset and the way's access
    /// counter is bumped. On a miss the 4-level walk runs from `cr3`, fails
    /// with `PageFault` at the first non-present entry, and otherwise caches
    /// the found frame in the TLB before returning it.
    pub fn translate(&mut self, virt_addr: VirtAddr) -> (r: Result<PhysAddr, PageFault>)
        requires
            old(self).wf(),
            spec_translate_enabled(old(self)@, virt_addr@),
        ensures
            final(self).wf(),
            final(self)@ == spec_translate(old(self)@, virt_addr@).0,
            (r is Ok <==> spec_translate(old(self)@, virt_addr@).1 is Some),
            (r matches Ok(pa) ==> spec_translate(old(self)@, virt_addr@).1 == Some(pa@)),
    {
        let vpn: u64 = virt_addr.virtual_page_number();
        let tlb_index: u64 = vpn & 127;
        let tlb_tag: u64 = (vpn >> 7) << 7;
        let page_offset: u64 = virt_addr.page_offset();
        proof {
            assert(vpn & 127 < 128) by (bit_vector);
        }
        let si: usize = tlb_index as usize;
        proof {
            assert(self.tlb@[si as int] == self.tlb.sets@[si as int]@);
        }
        let w = self.tlb.sets[si].lookup_way(tlb_tag);
        if w < 4 {
            let cached: PhysAddr = self.tlb.sets[si].entries[w].addr;
            let mut e = self.tlb.sets[si].entries[w];
            e.mark_accessed();
            self.tlb.sets[si].entries[w] = e;
            self.stats.tlb.hit();
            proof {
                assert(self@.tlb =~~= spec_translate(old(self)@, virt_addr@).0.tlb);
                assert(self@ =~= spec_translate(old(self)@, virt_addr@).0);
            }
            Ok(cached.with_offset(page_offset))
        } else {
            self.stats.tlb.miss();
            let _mem_len: usize = self.memory.len();
            let base1: u64 = self.cr3.bits();
            let pte1 = PageTableEntry::from_bits(
                self.memory.read_u64(base1 + 8 * (virt_addr.vpn1() as u64)),
            );
            if !pte1.is_present() {
                self.stats.page_faults = self.stats.page_faults + 1;
                proof {
                    assert(self@ =~= spec_translate(old(self)@, virt_addr@).0);
                }
                return Err(PageFault);
            }
            let base2: u64 = pte1.phys_addr().bits();
            let pte2 = PageTableEntry::from_bits(
                self.memory.read_u64(base2 + 8 * (virt_addr.vpn2() as u64)),
            );
            if !pte2.is_present() {
                self.stats.page_faults = self.stats.page_faults + 1;
                proof {
                    assert(self@ =~= spec_translate(old(self)@, virt_addr@).0);
                }
                return Err(PageFault);
            }
            let base3: u64 = pte2.phys_addr().bits();
            let pte3 = PageTableEntry::from_bits(
                self.memory.read_u64(base3 + 8 * (virt_addr.vpn3() as u64)),
            );
            if !pte3.is_present() {
                self.stats.page_faults = self.stats.page_faults + 1;
                proof {
                    assert(self@ =~= spec_translate(old(self)@, virt_addr@).0);
                }
                return Err(PageFault);
            }
            let base4: u64 = pte3.phys_addr().bits();
            let pte4 = PageTableEntry::from_bits(
                self.memory.read_u64(base4 + 8 * (virt_addr.vpn4() as u64)),
            );
            if !pte4.is_present() {
                self.stats.page_faults = self.stats.page_faults + 1;
                proof {
                    assert(self@ =~= spec_translate(old(self)@, virt_addr@).0);
                }
                return Err(PageFault);
            }
            let frame: PhysAddr = pte4.phys_addr();
            self.tlb.sets[si].insert_entry(tlb_tag, frame);
            proof {
                assert(self@.tlb =~~= spec_translate(old(self)@, virt_addr@).0.tlb);
                assert(self@ =~= spec_translate(old(self)@, virt_addr@).0);
            }
            Ok(frame.with_offset(page_offset))
        }
    }

    /// Read one byte at a physical address through the L1 cache: on a hit
    /// the byte comes from the cached line, on a miss the 64-byte block is
    /// loaded from memory into the victim way first. The cache is not kept
    /// coherent with later page-table edits; a hit returns the cached line's
    /// byte as it was loaded.
    pub fn read_phys(&mut self, addr: PhysAddr) -> (r: u8)
        requires
            old(self).wf(),
            spec_read_phys_enabled(old(self)@, addr@),
        ensures
            final(self).wf(),
            final(self)@ == spec_read_phys(old(self)@, addr@).0,
            r == spec_read_phys(old(self)@, addr@).1,
    {
        let b: u64 = addr.bits();
        proof {
            assert((b & 4095) & 63 < 64 && ((b & 4095) >> 6) & 63 < 64) by (bit_vector);
        }
        let offset: usize = ((b & 4095) & 63) as usize;
        let index: usize = (((b & 4095) >> 6) & 63) as usize;
        let tag: u64 = b >> 12;
        proof {
            assert(self.cache@[index as int] == self.cache.sets@[index as int]@);
        }
        let w = self.cache.sets[index].lookup_way(tag);
        if w < 8 {
            self.stats.l1.hit();
            proof {
                assert(self@ =~= spec_read_phys(old(self)@, addr@).0);
            }
            self.cache.sets[index].entries[w].line[offset]
        } else {
            self.stats.l1.miss();
            let block: u64 = b & 0xFFFF_FFFF_FFFF_FFC0;
            let line = self.memory.read_line(block);
            let byte: u8 = line[offset];
            let k = self.cache.sets[index].victim_way();
            self.cache.sets[index].entries[k] = L1dCacheEntry { valid: true, tag, line };
            proof {
                assert(self@.cache =~~= spec_read_phys(old(self)@, addr@).0.cache);
                assert(self@ =~= spec_read_phys(old(self)@, addr@).0);
            }
            byte
        }
    }

    /// Read one byte at a virtual address: translate, then on success read
    /// through the cache. A page fault propagates unchanged.
    pub fn read(&mut self, addr: VirtAddr) -> (r: Result<u8, PageFault>)
        requires
            old(self).wf(),
            spec_read_enabled(old(self)@, addr@),
        ensures
            final(self).wf(),
            final(self)@ == spec_read(old(self)@, addr@).0,
            (r is Ok <==> spec_read(old(self)@, addr@).1 is Some),
            (r matches Ok(b) ==> spec_read(old(self)@, addr@).1 == Some(b)),
    {
        let phys_addr = match self.translate(addr) {
            Ok(pa) => pa,
            Err(fault) => {
                return Err(fault);
            },
        };
        let byte = self.read_phys(phys_addr);
        Ok(byte)
    }

    /// Whether `translate` may be called right now: on a TLB miss the whole
    /// walk must stay inside memory, and the counter about to be bumped must
    /// have headroom. Decides exactly the precondition of `translate`.
    pub fn translate_enabled(&self, virt_addr: VirtAddr) -> (r: bool)
        requires
            self.wf(),
        ensures
            r == spec_translate_enabled(self@, virt_addr@),
    {
        let vpn: u64 = virt_addr.virtual_page_number();
        let tlb_index: u64 = vpn & 127;
        let tlb_tag: u64 = (vpn >> 7) << 7;
        proof {
            assert(vpn & 127 < 128) by (bit_vector);
        }
        let si: usize = tlb_index as usize;
        proof {
            assert(self.tlb@[si as int] == self.tlb.sets@[si as int]@);
        }
        let w = self.tlb.sets[si].lookup_way(tlb_tag);
        if w < 4 {
            return self.stats.tlb.hit < usize::MAX;
        }
        if self.stats.tlb.miss == usize::MAX {
            return false;
        }
        let n: usize = self.memory.len();
        if n < 4096 {
            return false;
        }
        let limit: u64 = n as u64 - 4096;
        let base1: u64 = self.cr3.bits();
        if base1 > limit {
            return false;
        }
        let pte1 = PageTableEntry::from_bits(
            self.memory.read_u64(base1 + 8 * (virt_addr.vpn1() as u64)),
        );
        if !pte1.is_present() {
            return self.stats.page_faults < usize::MAX;
        }
        let base2: u64 = pte1.phys_addr().bits();
        if base2 > limit {
            return false;
        }
        let pte2 = PageTableEntry::from_bits(
            self.memory.read_u64(base2 + 8 * (virt_addr.vpn2() as u64)),
        );
        if !pte2.is_present() {
            return self.stats.page_faults < usize::MAX;
        }
        let base3: u64 = pte2.phys_addr().bits();
        if base3 > limit {
            return false;
        }
        let pte3 = PageTableEntry::from_bits(
            self.memory.read_u64(base3 + 8 * (virt_addr.vpn3() as u64)),
        );
        if !pte3.is_present() {
            return self.stats.page_faults < usize::MAX;
        }
        let base4: u64 = pte3.phys_addr().bits();
        if base4 > limit {
            return false;
        }
        let pte4 = PageTableEntry::from_bits(
            self.memory.read_u64(base4 + 8 * (virt_addr.vpn4() as u64)),
        );
        if !pte4.is_present() {
            return self.stats.page_faults < usize::MAX;
        }
        true
    }

    /// Whether the cache-side half of a read may run against `addr`.
    fn read_phys_enabled(&self, addr: PhysAddr) -> (r: bool)
        requires
            self.wf(),
        ensures
            r == spec_read_phys_enabled(self@, addr@),
    {
        let b: u64 = addr.bits();
        proof {
            assert(((b & 4095) >> 6) & 63 < 64) by (bit_vector);
        }
        let index: usize = (((b & 4095) >> 6) & 63) as usize;
        let tag: u64 = b >> 12;
        proof {
            assert(self.cache@[index as int] == self.cache.sets@[index as int]@);
        }
        let w = self.cache.sets[index].lookup_way(tag);
        if w < 8 {
            self.stats.l1.hit < usize::MAX
        } else {
            if self.stats.l1.miss == usize::MAX {
                return false;
            }
            let n: usize = self.memory.len();
            if n < 64 {
                return false;
            }
            let block: u64 = b & 0xFFFF_FFFF_FFFF_FFC0;
            block <= n as u64 - 64
        }
    }

    /// Whether `read` may be called right now: `translate` must be, and,
    /// where translation succeeds, the line load must stay inside memory and
    /// the cache counters must have headroom. Decides exactly the
    /// precondition of `read`.
    pub fn read_enabled(&self, addr: VirtAddr) -> (r: bool)
        requires
            self.wf(),
        ensures
            r == spec_read_enabled(self@, addr@),
    {
        if !self.translate_enabled(addr) {
            return false;
        }
        // what translate would return, recomputed without touching the state
        let vpn: u64 = addr.virtual_page_number();
        let tlb_index: u64 = vpn & 127;
        let tlb_tag: u64 = (vpn >> 7) << 7;
        let page_offset: u64 = addr.page_offset();
        proof {
            assert(vpn & 127 < 128) by (bit_vector);
        }
        let si: usize = tlb_index as usize;
        proof {
            assert(self.tlb@[si as int] == self.tlb.sets@[si as int]@);
        }
        let w = self.tlb.sets[si].lookup_way(tlb_tag);
        let target: PhysAddr = if w < 4 {
            self.tlb.sets[si].entries[w].addr.with_offset(page_offset)
        } else {
            let _mem_len: usize = self.memory.len();
            let pte1 = PageTableEntry::from_bits(
                self.memory.read_u64(self.cr3.bits() + 8 * (addr.vpn1() as u64)),
            );
            if !pte1.is_present() {
                return true;
            }
            let pte2 = PageTableEntry::from_bits(
                self.memory.read_u64(pte1.phys_addr().bits() + 8 * (addr.vpn2() as u64)),
            );
            if !pte2.is_present() {
                return true;
            }
            let pte3 = PageTableEntry::from_bits(
                self.memory.read_u64(pte2.phys_addr().bits() + 8 * (addr.vpn3() as u64)),
            );
            if !pte3.is_present() {
                return true;
            }
            let pte4 = PageTableEntry::from_bits(
                self.memory.read_u64(pte3.phys_addr().bits() + 8 * (addr.vpn4() as u64)),
            );
            if !pte4.is_present() {
                return true;
            }
            pte4.phys_addr().with_offset(page_offset)
        };
        proof {
            let (m1, t) = spec_translate(self@, addr@);
            assert(t == Some(target@));
            assert(m1.cache == self@.cache && m1.mem == self@.mem && m1.stats.l1
                == self@.stats.l1);
            assert(spec_read_phys_enabled(m1, target@) == spec_read_phys_enabled(self@, target@));
        }
        self.read_phys_enabled(target)
    }

    /// Whether one scripted action may run right now. Decides exactly the
    /// precondition of `run_one`.
    pub fn action_enabled(&self, action: Action) -> (r: bool)
        requires
            self.wf(),
        ensures
            r == spec_step_enabled(self@, action),
    {
        match action {
            Action::MapPage { table, index, target } => self.table_edit_enabled(table, index),
            Action::UnmapPage { table, index } => self.table_edit_enabled(table, index),
            Action::InvalidateTlb => true,
            Action::Read(addr) => self.read_enabled(addr),
            Action::DumpStats => true,
        }
    }

    /// Whether a page-table edit at `table_location` / `table_entry` stays
    /// inside memory. Decides exactly the precondition of `map_page` and
    /// `unmap_page`.
    pub fn table_edit_enabled(&self, table_location: PhysAddr, table_entry: usize) -> (r: bool)
        requires
            self.wf(),
        ensures
            r == spec_table_edit_enabled(self@, table_location@, table_entry as u64),
    {
        let n: usize = self.memory.len();
        table_entry < 512 && n >= 4096 && table_location.bits() <= n as u64 - 4096
    }

    /// Apply one scripted action. A `Read`'s byte is discarded; `DumpStats`
    /// resets the counters, leaving any rendering of them to the caller.
    pub fn run_one(&mut self, action: Action)
        requires
            old(self).wf(),
            spec_step_enabled(old(self)@, action),
        ensures
            final(self).wf(),
            final(self)@ == spec_step(old(self)@, action),
    {
        match action {
            Action::MapPage { table, index, target } => {
                self.map_page(table, index, target);
            },
            Action::UnmapPage { table, index } => {
                self.unmap_page(table, index);
            },
            Action::Read(addr) => {
                let _ = self.read(addr);
            },
            Action::DumpStats => {
                self.stats.reset();
                proof {
                    assert(self@ =~= spec_step(old(self)@, action));
                }
            },
            Action::InvalidateTlb => {
                self.invalidate_tlb();
            },
        }
    }

    /// Apply a whole action sequence, in order.
    pub fn run_many(&mut self, actions: &[Action])
        requires
            old(self).wf(),
            spec_run_enabled(old(self)@, actions@),
        ensures
            final(self).wf(),
            final(self)@ == spec_run(old(self)@, actions@),
    {
        let len: usize = actions.len();
        proof {
            assert(actions@.take(0) =~= Seq::<Action>::empty());
            assert(actions@.skip(0) =~= actions@);
        }
        let mut i: usize = 0;
        while i < len
            invariant
                len == actions@.len(),
                i <= len,
                self.wf(),
                self@ == spec_run(old(self)@, actions@.take(i as int)),
                spec_run_enabled(self@, actions@.skip(i as int)),
            decreases len - i,
        {
            proof {
                assert(actions@.skip(i as int)[0] == actions@[i as int]);
                lemma_run_take_step(old(self)@, actions@, i as int);
            }
            self.run_one(actions[i]);
            proof {
                assert(actions@.skip(i as int).skip(1) =~= actions@.skip(i as int + 1));
            }
            i = i + 1;
        }
        proof {
            assert(actions@.take(len as int) =~= actions@);
        }
    }

    /// The page table at `table_location`, decoded out of memory.
    pub fn page_table_at(&self, table_location: PhysAddr) -> (r: PageTable)
        requires
            table_location@ + 4096 <= self@.mem.len(),
        ensures
            r.wf(),
            r.entries@ == spec_table_at(self@.mem, table_location@),
    {
        let r = self.memory.read_table(table_location);
        proof {
            assert(r.entries@ =~= spec_table_at(self@.mem, table_location@));
        }
        r
    }

    /// How many entries of the table at `table_location` are present.
    pub fn num_mapped_entries(&self, table_location: PhysAddr) -> (r: usize)
        requires
            table_location@ + 4096 <= self@.mem.len(),
        ensures
            r == crate::page::count_present(spec_table_at(self@.mem, table_location@), 512),
    {
        let table = self.page_table_at(table_location);
        table.num_mapped_entries()
    }
}

} // verus!
