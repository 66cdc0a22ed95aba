//! The mathematical model of the machine: a ghost state value and one step
//! function per operation. Every executable operation of `Machine` promises
//! that its final state and result equal what these functions compute from
//! the state before the call, so a whole run is pinned down by its initial
//! state and its action sequence.

use vstd::prelude::*;

use crate::addr::{
    spec_page_number, spec_page_offset, spec_vpn1, spec_vpn2, spec_vpn3, spec_vpn4,
    spec_with_offset, PhysAddr, VirtAddr,
};
use crate::cache::{
    cache_hit_way, cache_victim_way, spec_block_base, spec_cache_index, spec_cache_offset,
    spec_cache_tag, spec_empty_cache, CacheEntryView,
};
use crate::memory::{spec_store_u64, spec_u64_at};
use crate::page::{spec_pte_addr, spec_pte_present, spec_pte_present_bits};
use crate::stat::{spec_stats_zero, Stats};
use crate::tlb::{
    spec_empty_tlb, spec_mark_accessed, spec_tlb_index, spec_tlb_tag, tlb_hit_way, tlb_set_insert,
    TlbEntry,
};

verus! {

/// The state of one machine, as mathematics: the root table pointer, the
/// TLB sets, the memory bytes, the cache sets and the counters.
#[verifier::ext_equal]
pub struct MachineView {
    pub cr3: u64,
    pub tlb: Seq<Seq<TlbEntry>>,
    pub mem: Seq<u8>,
    pub cache: Seq<Seq<CacheEntryView>>,
    pub stats: Stats,
}

impl MachineView {
    /// The fixed geometry every operation preserves: 128 TLB sets of 4 ways,
    /// 64 cache sets of 8 ways, 64-byte lines.
    pub open spec fn wf(self) -> bool {
        &&& self.tlb.len() == 128
        &&& forall|i: int| 0 <= i < 128 ==> (#[trigger] self.tlb[i]).len() == 4
        &&& self.cache.len() == 64
        &&& forall|i: int|
            0 <= i < 64 ==> (#[trigger] self.cache[i]).len() == 8 && (forall|j: int|
                0 <= j < 8 ==> (#[trigger] self.cache[i][j]).line.len() == 64)
    }
}

/// The page-table entry for index `idx` of the table based at `base`.
pub open spec fn spec_pte_at(mem: Seq<u8>, base: u64, idx: u64) -> u64 {
    spec_u64_at(mem, base + 8 * idx)
}

/// The base of the level-4 table the walk for `va` reaches, if the first
/// three levels are present.
pub open spec fn spec_walk3(mem: Seq<u8>, cr3: u64, va: u64) -> Option<u64> {
    let p1 = spec_pte_at(mem, cr3, spec_vpn1(va));
    if !spec_pte_present(p1) {
        None
    } else {
        let p2 = spec_pte_at(mem, spec_pte_addr(p1), spec_vpn2(va));
        if !spec_pte_present(p2) {
            None
        } else {
            let p3 = spec_pte_at(mem, spec_pte_addr(p2), spec_vpn3(va));
            if !spec_pte_present(p3) {
                None
            } else {
                Some(spec_pte_addr(p3))
            }
        }
    }
}

/// The frame address the 4-level walk for `va` ends at, or `None` if some
/// level's entry is not present.
pub open spec fn spec_walk(mem: Seq<u8>, cr3: u64, va: u64) -> Option<u64> {
    match spec_walk3(mem, cr3, va) {
        None => None,
        Some(base4) => {
            let p4 = spec_pte_at(mem, base4, spec_vpn4(va));
            if !spec_pte_present(p4) {
                None
            } else {
                Some(spec_pte_addr(p4))
            }
        },
    }
}

/// Every table the walk for `va` reads lies inside memory. The reference
/// behaviour aborts on an out-of-bounds table read; here those inputs are
/// excluded by contract instead.
pub open spec fn spec_walk_bounded(mem: Seq<u8>, cr3: u64, va: u64) -> bool {
    &&& cr3 + 4096 <= mem.len()
    &&& {
        let p1 = spec_pte_at(mem, cr3, spec_vpn1(va));
        spec_pte_present(p1) ==> {
            &&& spec_pte_addr(p1) + 4096 <= mem.len()
            &&& {
                let p2 = spec_pte_at(mem, spec_pte_addr(p1), spec_vpn2(va));
                spec_pte_present(p2) ==> {
                    &&& spec_pte_addr(p2) + 4096 <= mem.len()
                    &&& {
                        let p3 = spec_pte_at(mem, spec_pte_addr(p2), spec_vpn3(va));
                        spec_pte_present(p3) ==> spec_pte_addr(p3) + 4096 <= mem.len()
                    }
                }
            }
        }
    }
}

/// The TLB set index the lookup for `va` uses.
pub open spec fn spec_va_set(va: u64) -> int {
    spec_tlb_index(spec_page_number(va)) as int
}

/// The TLB tag the lookup for `va` uses.
pub open spec fn spec_va_tag(va: u64) -> u64 {
    spec_tlb_tag(spec_page_number(va))
}

/// Whether the lookup for `va` hits.
pub open spec fn spec_tlb_hits(m: MachineView, va: u64) -> bool {
    tlb_hit_way(m.tlb[spec_va_set(va)], spec_va_tag(va)) < 4
}

/// What `translate` does: the state after the call and the translated
/// address, or `None` for a page fault.
pub open spec fn spec_translate(m: MachineView, va: u64) -> (MachineView, Option<u64>) {
    let si = spec_va_set(va);
    let tag = spec_va_tag(va);
    let off = spec_page_offset(va);
    let set = m.tlb[si];
    let w = tlb_hit_way(set, tag);
    if w < 4 {
        let m2 = MachineView {
            tlb: m.tlb.update(si, set.update(w, spec_mark_accessed(set[w]))),
            stats: Stats {
                tlb: crate::stat::CacheStats {
                    hit: (m.stats.tlb.hit + 1) as usize,
                    ..m.stats.tlb
                },
                ..m.stats
            },
            ..m
        };
        (m2, Some(spec_with_offset(set[w].addr@, off)))
    } else {
        let missed = Stats {
            tlb: crate::stat::CacheStats { miss: (m.stats.tlb.miss + 1) as usize, ..m.stats.tlb },
            ..m.stats
        };
        match spec_walk(m.mem, m.cr3, va) {
            None => {
                let m2 = MachineView {
                    stats: Stats {
                        page_faults: (missed.page_faults + 1) as usize,
                        ..missed
                    },
                    ..m
                };
                (m2, None)
            },
            Some(frame) => {
                let m2 = MachineView {
                    tlb: m.tlb.update(si, tlb_set_insert(set, tag, frame)),
                    stats: missed,
                    ..m
                };
                (m2, Some(spec_with_offset(frame, off)))
            },
        }
    }
}

/// When `translate` may run: its counters have headroom, and on a miss the
/// walk stays inside memory.
pub open spec fn spec_translate_enabled(m: MachineView, va: u64) -> bool {
    if spec_tlb_hits(m, va) {
        m.stats.tlb.hit < usize::MAX
    } else {
        &&& m.stats.tlb.miss < usize::MAX
        &&& spec_walk_bounded(m.mem, m.cr3, va)
        &&& (spec_walk(m.mem, m.cr3, va) is None ==> m.stats.page_faults < usize::MAX)
    }
}

/// Whether the cache lookup for physical address `pa` hits.
pub open spec fn spec_cache_hits(m: MachineView, pa: u64) -> bool {
    cache_hit_way(m.cache[spec_cache_index(pa) as int], spec_cache_tag(pa)) < 8
}

/// What `read_phys` does: the state after the call and the byte read.
pub open spec fn spec_read_phys(m: MachineView, pa: u64) -> (MachineView, u8) {
    let si = spec_cache_index(pa) as int;
    let off = spec_cache_offset(pa) as int;
    let tag = spec_cache_tag(pa);
    let set = m.cache[si];
    let w = cache_hit_way(set, tag);
    if w < 8 {
        let m2 = MachineView {
            stats: Stats {
                l1: crate::stat::CacheStats { hit: (m.stats.l1.hit + 1) as usize, ..m.stats.l1 },
                ..m.stats
            },
            ..m
        };
        (m2, set[w].line[off])
    } else {
        let block = spec_block_base(pa);
        let line = m.mem.subrange(block as int, block + 64);
        let k = cache_victim_way(set);
        let m2 = MachineView {
            cache: m.cache.update(
                si,
                set.update(k, CacheEntryView { valid: true, tag, line }),
            ),
            stats: Stats {
                l1: crate::stat::CacheStats { miss: (m.stats.l1.miss + 1) as usize, ..m.stats.l1 },
                ..m.stats
            },
            ..m
        };
        (m2, line[off])
    }
}

/// When `read_phys` may run: its counters have headroom, and on a miss the
/// whole line lies inside memory.
pub open spec fn spec_read_phys_enabled(m: MachineView, pa: u64) -> bool {
    if spec_cache_hits(m, pa) {
        m.stats.l1.hit < usize::MAX
    } else {
        m.stats.l1.miss < usize::MAX && spec_block_base(pa) + 64 <= m.mem.len()
    }
}

/// What `read` does: translate, then on success read through the cache.
pub open spec fn spec_read(m: MachineView, va: u64) -> (MachineView, Option<u8>) {
    let (m1, t) = spec_translate(m, va);
    match t {
        None => (m1, None),
        Some(pa) => {
            let (m2, b) = spec_read_phys(m1, pa);
            (m2, Some(b))
        },
    }
}

pub open spec fn spec_read_enabled(m: MachineView, va: u64) -> bool {
    &&& spec_translate_enabled(m, va)
    &&& (spec_translate(m, va).1 matches Some(pa) ==> spec_read_phys_enabled(
        spec_translate(m, va).0,
        pa,
    ))
}

/// What `map_page` does: write a present entry for `target` into slot
/// `index` of the table at `loc`.
pub open spec fn spec_map_page(m: MachineView, loc: u64, index: u64, target: u64) -> MachineView {
    MachineView {
        mem: spec_store_u64(m.mem, loc + 8 * index, spec_pte_present_bits(target)),
        ..m
    }
}

/// What `unmap_page` does: write an unmapped entry into that slot.
pub open spec fn spec_unmap_page(m: MachineView, loc: u64, index: u64) -> MachineView {
    MachineView { mem: spec_store_u64(m.mem, loc + 8 * index, 0), ..m }
}

/// When a page-table edit may run: the whole table lies inside memory and
/// the slot index is in range.
pub open spec fn spec_table_edit_enabled(m: MachineView, loc: u64, index: u64) -> bool {
    loc + 4096 <= m.mem.len() && index < 512
}

/// What `invalidate_tlb` does.
pub open spec fn spec_invalidate_tlb(m: MachineView) -> MachineView {
    MachineView { tlb: spec_empty_tlb(), ..m }
}

/// What `invalidate_cache` does.
pub open spec fn spec_invalidate_cache(m: MachineView) -> MachineView {
    MachineView { cache: spec_empty_cache(), ..m }
}

/// What resetting the counters does.
pub open spec fn spec_reset_stats(m: MachineView) -> MachineView {
    MachineView { stats: spec_stats_zero(), ..m }
}

/// One scripted action against a machine.
#[derive(Clone, Copy)]
pub enum Action {
    MapPage { table: PhysAddr, index: usize, target: PhysAddr },
    UnmapPage { table: PhysAddr, index: usize },
    InvalidateTlb,
    Read(VirtAddr),
    DumpStats,
}

/// What one action does to the state. A `Read`'s byte is discarded; a
/// `DumpStats` resets the counters (rendering them is the caller's affair).
pub open spec fn spec_step(m: MachineView, a: Action) -> MachineView {
    match a {
        Action::MapPage { table, index, target } => spec_map_page(m, table@, index as u64, target@),
        Action::UnmapPage { table, index } => spec_unmap_page(m, table@, index as u64),
        Action::InvalidateTlb => spec_invalidate_tlb(m),
        Action::Read(va) => spec_read(m, va@).0,
        Action::DumpStats => spec_reset_stats(m),
    }
}

/// When one action may run.
pub open spec fn spec_step_enabled(m: MachineView, a: Action) -> bool {
    match a {
        Action::MapPage { table, index, target } => spec_table_edit_enabled(m, table@, index as u64),
        Action::UnmapPage { table, index } => spec_table_edit_enabled(m, table@, index as u64),
        Action::InvalidateTlb => true,
        Action::Read(va) => spec_read_enabled(m, va@),
        Action::DumpStats => true,
    }
}

/// The state after a whole action sequence.
pub open spec fn spec_run(m: MachineView, actions: Seq<Action>) -> MachineView
    decreases actions.len(),
{
    if actions.len() == 0 {
        m
    } else {
        spec_run(spec_step(m, actions[0]), actions.skip(1))
    }
}

/// Running one more action of a sequence is one more step: the state after
/// the first `i + 1` actions is the state after the first `i`, stepped by
/// action `i`.
pub proof fn lemma_run_take_step(m: MachineView, actions: Seq<Action>, i: int)
    requires
        0 <= i < actions.len(),
    ensures
        spec_run(m, actions.take(i + 1)) == spec_step(spec_run(m, actions.take(i)), actions[i]),
    decreases i,
{
    if i == 0 {
        assert(actions.take(0) =~= Seq::<Action>::empty());
        assert(actions.take(1)[0] == actions[0]);
        assert(actions.take(1).skip(1) =~= Seq::<Action>::empty());
        assert(spec_run(m, actions.take(0)) == m);
        assert(spec_run(spec_step(m, actions[0]), actions.take(1).skip(1)) == spec_step(
            m,
            actions[0],
        ));
        assert(spec_run(m, actions.take(1)) == spec_run(
            spec_step(m, actions.take(1)[0]),
            actions.take(1).skip(1),
        ));
    } else {
        let m1 = spec_step(m, actions[0]);
        let tail = actions.skip(1);
        lemma_run_take_step(m1, tail, i - 1);
        assert(actions.take(i + 1).skip(1) =~= tail.take(i));
        assert(actions.take(i).skip(1) =~= tail.take(i - 1));
        assert(actions.take(i + 1)[0] == actions[0]);
        assert(actions.take(i)[0] == actions[0]);
        assert(tail[i - 1] == actions[i]);
        assert(spec_run(m, actions.take(i + 1)) == spec_run(
            spec_step(m, actions.take(i + 1)[0]),
            actions.take(i + 1).skip(1),
        ));
        assert(spec_run(m, actions.take(i)) == spec_run(
            spec_step(m, actions.take(i)[0]),
            actions.take(i).skip(1),
        ));
        assert(spec_run(m1, tail.take(i)) == spec_step(spec_run(m1, tail.take(i - 1)), tail[i - 1]));
    }
}

/// Whether every action of the sequence may run when its turn comes.
pub open spec fn spec_run_enabled(m: MachineView, actions: Seq<Action>) -> bool
    decreases actions.len(),
{
    actions.len() == 0 || (spec_step_enabled(m, actions[0]) && spec_run_enabled(
        spec_step(m, actions[0]),
        actions.skip(1),
    ))
}

} // verus!
