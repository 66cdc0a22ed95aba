//! TLB and L1 behaviour over access patterns: hit reproducibility, the
//! locality and stride scenarios, and the exact victim-selection policies.

use mmu_sim::addr::{PhysAddr, VirtAddr};
use mmu_sim::machine::Machine;

const CR3: u64 = 100 * 4096;
const P1: u64 = 101 * 4096;
const P2: u64 = 102 * 4096;
const P3: u64 = 103 * 4096;
const BASE: u64 = 0x50000000000;

fn chained_machine_for_caching() -> Machine {
    let mut m = Machine::new(PhysAddr::from_bits(CR3), 1);
    m.map_page(PhysAddr::from_bits(CR3), 10, PhysAddr::from_bits(P1));
    m.map_page(PhysAddr::from_bits(P1), 0, PhysAddr::from_bits(P2));
    m.map_page(PhysAddr::from_bits(P2), 0, PhysAddr::from_bits(P3));
    m.map_page(PhysAddr::from_bits(P2), 1, PhysAddr::from_bits(P3));
    let mut i = 0;
    while i < 10 {
        m.map_page(
            PhysAddr::from_bits(P3),
            i,
            PhysAddr::from_bits((104 + i as u64) * 4096),
        );
        i += 1;
    }
    m
}

#[test]
fn second_read_of_same_page_hits_tlb() {
    let mut m = chained_machine_for_caching();
    let first = m.translate(VirtAddr::from_bits(BASE)).unwrap();
    assert_eq!(m.stats.tlb.miss, 1);
    assert_eq!(m.stats.tlb.hit, 0);
    // any address of the same page hits and translates to the same frame
    let second = m.translate(VirtAddr::from_bits(BASE + 0x37)).unwrap();
    assert_eq!(m.stats.tlb.miss, 1);
    assert_eq!(m.stats.tlb.hit, 1);
    assert_eq!(second.bits(), first.bits() + 0x37);
}

#[test]
fn locality_scenario() {
    // 100 consecutive bytes from a page-aligned address: one TLB miss and
    // two line loads, everything else hits
    let mut m = chained_machine_for_caching();
    let mut i = 0;
    while i < 100 {
        m.read(VirtAddr::from_bits(BASE + i)).unwrap();
        i += 1;
    }
    assert_eq!(m.stats.tlb.miss, 1);
    assert_eq!(m.stats.tlb.hit, 99);
    assert_eq!(m.stats.l1.miss, 2);
    assert_eq!(m.stats.l1.hit, 98);
    assert_eq!(m.stats.page_faults, 0);
}

#[test]
fn stride_scenario_within_one_page() {
    // one line per access, all in one page: the TLB misses once
    let mut m = chained_machine_for_caching();
    let mut i = 0;
    while i < 64 {
        m.read(VirtAddr::from_bits(BASE + i * 64)).unwrap();
        i += 1;
    }
    assert_eq!(m.stats.tlb.miss, 1);
    assert_eq!(m.stats.tlb.hit, 63);
    assert_eq!(m.stats.l1.miss, 64);
    assert_eq!(m.stats.l1.hit, 0);
}

#[test]
fn stride_scenario_hundred_lines() {
    // 100 addresses spaced 64 bytes apart cover two pages: every access
    // loads a distinct line, and the TLB misses once per page
    let mut m = chained_machine_for_caching();
    let mut i = 0;
    while i < 100 {
        m.read(VirtAddr::from_bits(BASE + i * 64)).unwrap();
        i += 1;
    }
    assert_eq!(m.stats.l1.miss, 100);
    assert_eq!(m.stats.l1.hit, 0);
    assert_eq!(m.stats.tlb.miss, 2);
    assert_eq!(m.stats.tlb.hit, 98);
}

#[test]
fn l1_victim_is_last_invalid_way() {
    let mut m = chained_machine_for_caching();
    m.read(VirtAddr::from_bits(BASE)).unwrap();
    // the scan keeps the last invalid way it sees, so a fresh set fills
    // from way 7 downwards
    let set = &m.cache.sets[0];
    assert!(set.entries[7].valid);
    assert_eq!(set.entries[7].tag, 104);
    let mut w = 0;
    while w < 7 {
        assert!(!set.entries[w].valid);
        w += 1;
    }
}

#[test]
fn l1_full_set_evicts_way_zero() {
    let mut m = chained_machine_for_caching();
    // 9 frames, same line index 0, distinct tags
    let mut i = 0;
    while i < 9 {
        m.read(VirtAddr::from_bits(BASE + i * 4096)).unwrap();
        i += 1;
    }
    // the first 8 filled ways 7,6,...,0; the 9th found no invalid way and
    // overwrote way 0
    assert_eq!(m.stats.l1.miss, 9);
    assert_eq!(m.cache.sets[0].entries[0].tag, 104 + 8);
    assert_eq!(m.cache.sets[0].entries[7].tag, 104);
}

#[test]
fn tlb_eviction_picks_lowest_access_counter() {
    let mut m = chained_machine_for_caching();
    // extra level-4 slots so that five pages share TLB set 0
    m.map_page(PhysAddr::from_bits(P3), 128, PhysAddr::from_bits(104 * 4096));
    m.map_page(PhysAddr::from_bits(P3), 256, PhysAddr::from_bits(104 * 4096));
    m.map_page(PhysAddr::from_bits(P3), 384, PhysAddr::from_bits(104 * 4096));
    let step = 128 * 4096;
    // four misses fill the set's ways 0..3 in order; each miss resets every
    // access counter of the set, so after the fourth only way 3 has count 1
    let mut k = 0;
    while k < 4 {
        m.read(VirtAddr::from_bits(BASE + k * step)).unwrap();
        k += 1;
    }
    let set = &m.tlb.sets[0];
    assert!(set.entries[0].valid && set.entries[1].valid);
    assert!(set.entries[2].valid && set.entries[3].valid);
    assert_eq!(set.entries[3].access, 1);
    assert_eq!(set.entries[0].access, 0);
    // bump some counters: way 0 twice, way 1 once; way 2 stays at 0
    m.read(VirtAddr::from_bits(BASE)).unwrap();
    m.read(VirtAddr::from_bits(BASE)).unwrap();
    m.read(VirtAddr::from_bits(BASE + step)).unwrap();
    // a fifth page of the same set misses: the victim is way 2, the way
    // with the lowest counter
    let va5 = VirtAddr::from_bits(BASE + 4 * step);
    m.read(va5).unwrap();
    let set = &m.tlb.sets[0];
    assert!(set.entries[2].valid);
    assert_eq!(set.entries[2].tag, va5.virtual_page_number());
    assert_eq!(set.entries[2].access, 1);
    // the reset hit the whole set
    assert_eq!(set.entries[0].access, 0);
    assert_eq!(set.entries[1].access, 0);
    assert_eq!(set.entries[3].access, 0);
    // the evicted page misses again; its insert in turn evicts way 0, the
    // first way of the all-zero counters, while way 1 survives and hits
    let misses = m.stats.tlb.miss;
    m.read(VirtAddr::from_bits(BASE + 2 * step)).unwrap();
    assert_eq!(m.stats.tlb.miss, misses + 1);
    let hits = m.stats.tlb.hit;
    m.read(VirtAddr::from_bits(BASE + step)).unwrap();
    assert_eq!(m.stats.tlb.hit, hits + 1);
}

#[test]
fn cached_line_is_stale_until_cache_invalidated() {
    // map a virtual page onto the root table's own frame, so reads see the
    // table bytes; a later table edit then changes memory under a cached line
    let mut m = Machine::new(PhysAddr::from_bits(CR3), 1);
    m.map_page(PhysAddr::from_bits(CR3), 10, PhysAddr::from_bits(P1));
    m.map_page(PhysAddr::from_bits(P1), 0, PhysAddr::from_bits(P2));
    m.map_page(PhysAddr::from_bits(P2), 0, PhysAddr::from_bits(P3));
    m.map_page(PhysAddr::from_bits(P3), 0, PhysAddr::from_bits(CR3));
    // slot 11 of the root table sits at byte offset 88; it is unmapped
    assert_eq!(m.read(VirtAddr::from_bits(BASE + 88)).unwrap(), 0);
    // the low byte of the root's slot 10 shows the present bit of P1
    assert_eq!(m.read(VirtAddr::from_bits(BASE + 80)).unwrap(), 0x01);
    assert_eq!(m.read(VirtAddr::from_bits(BASE + 81)).unwrap(), 0x50);
    assert_eq!(m.read(VirtAddr::from_bits(BASE + 82)).unwrap(), 0x06);
    // mapping slot 11 rewrites memory, but the line was cached
    m.map_page(PhysAddr::from_bits(CR3), 11, PhysAddr::from_bits(P1));
    assert_eq!(m.read(VirtAddr::from_bits(BASE + 88)).unwrap(), 0);
    // after an explicit cache flush the fresh bytes appear
    m.invalidate_cache();
    assert_eq!(m.read(VirtAddr::from_bits(BASE + 88)).unwrap(), 0x01);
}

#[test]
fn tlb_and_cache_sets_never_overfill() {
    // hammer one TLB set and one cache set far past their capacity
    let mut m = chained_machine_for_caching();
    m.map_page(PhysAddr::from_bits(P3), 128, PhysAddr::from_bits(104 * 4096));
    m.map_page(PhysAddr::from_bits(P3), 256, PhysAddr::from_bits(104 * 4096));
    m.map_page(PhysAddr::from_bits(P3), 384, PhysAddr::from_bits(104 * 4096));
    let mut k = 0;
    while k < 5 {
        m.read(VirtAddr::from_bits(BASE + k * 128 * 4096)).unwrap();
        let mut valid_tlb = 0;
        let mut w = 0;
        while w < 4 {
            if m.tlb.sets[0].entries[w].valid {
                valid_tlb += 1;
            }
            w += 1;
        }
        assert!(valid_tlb <= 4);
        k += 1;
    }
    let mut i = 0;
    while i < 10 {
        m.read(VirtAddr::from_bits(BASE + i * 4096)).unwrap();
        let mut valid_l1 = 0;
        let mut w = 0;
        while w < 8 {
            if m.cache.sets[0].entries[w].valid {
                valid_l1 += 1;
            }
            w += 1;
        }
        assert!(valid_l1 <= 8);
        i += 1;
    }
}
