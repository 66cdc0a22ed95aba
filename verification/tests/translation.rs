//! The 4-level walk: the homonym chain, page faults at every level, the
//! unmap effect, and the preserved no-auto-invalidate behaviour.

use mmu_sim::addr::{PhysAddr, VirtAddr};
use mmu_sim::machine::Machine;
use mmu_sim::model::Action;

const CR3: u64 = 100 * 4096;
const P1: u64 = 101 * 4096;
const P2: u64 = 102 * 4096;
const P3: u64 = 103 * 4096;

/// The chain root[10]=P1, P1[0]=P2, P2[0]=P3, P2[1]=P3, P3[i]=frame 104+i.
fn chained_machine() -> Machine {
    let mut m = Machine::new(PhysAddr::from_bits(CR3), 1);
    m.map_page(PhysAddr::from_bits(CR3), 10, PhysAddr::from_bits(P1));
    m.map_page(PhysAddr::from_bits(P1), 0, PhysAddr::from_bits(P2));
    m.map_page(PhysAddr::from_bits(P2), 0, PhysAddr::from_bits(P3));
    m.map_page(PhysAddr::from_bits(P2), 1, PhysAddr::from_bits(P3));
    let mut i = 0;
    while i < 10 {
        m.map_page(
            PhysAddr::from_bits(P3),
            i,
            PhysAddr::from_bits((104 + i as u64) * 4096),
        );
        i += 1;
    }
    m
}

#[test]
fn homonym_two_virtual_one_physical() {
    let mut m = chained_machine();
    // vpn1=10, vpn2=0, vpn3=0, vpn4=0
    let a = m.translate(VirtAddr::from_bits(0x50000000000)).unwrap();
    // vpn1=10, vpn2=0, vpn3=1, vpn4=0: resolves through P2[1]=P3 to the same frame
    let b = m.translate(VirtAddr::from_bits(0x50000200000)).unwrap();
    assert_eq!(a.bits(), 104 * 4096);
    assert_eq!(b.bits(), 104 * 4096);
    assert_eq!(a, b);
}

#[test]
fn translate_keeps_page_offset() {
    let mut m = chained_machine();
    let a = m.translate(VirtAddr::from_bits(0x50000000123)).unwrap();
    assert_eq!(a.bits(), 104 * 4096 + 0x123);
}

#[test]
fn fault_when_no_mapping_at_all() {
    let mut m = Machine::new(PhysAddr::from_bits(CR3), 1);
    assert!(m.translate(VirtAddr::from_bits(0x50000000000)).is_err());
    assert_eq!(m.stats.page_faults, 1);
    assert_eq!(m.stats.tlb.miss, 1);
}

#[test]
fn fault_at_each_level() {
    // level 1 missing: vpn1 = 11 was never mapped
    let mut m = chained_machine();
    assert!(m.translate(VirtAddr::from_bits(11 << 39)).is_err());
    // level 2 missing: vpn2 = 1
    assert!(m.translate(VirtAddr::from_bits((10 << 39) | (1 << 30))).is_err());
    // level 3 missing: vpn3 = 2
    assert!(m.translate(VirtAddr::from_bits((10 << 39) | (2 << 21))).is_err());
    // level 4 missing: vpn4 = 10
    assert!(m.translate(VirtAddr::from_bits((10 << 39) | (10 << 12))).is_err());
    assert_eq!(m.stats.page_faults, 4);
}

#[test]
fn unmap_makes_translation_fault() {
    let mut m = chained_machine();
    let va = VirtAddr::from_bits(0x50000000000);
    assert!(m.translate(va).is_ok());
    m.unmap_page(PhysAddr::from_bits(P3), 0);
    m.invalidate_tlb();
    assert!(m.translate(va).is_err());
    // the homonym path ends at the same slot and faults too
    assert!(m.translate(VirtAddr::from_bits(0x50000200000)).is_err());
    // a sibling slot is untouched
    assert!(m.translate(VirtAddr::from_bits(0x50000001000)).is_ok());
}

#[test]
fn stale_tlb_entry_survives_unmap_until_invalidate() {
    // page-table edits do not touch the TLB: a translation cached before the
    // unmap keeps answering until invalidate_tlb is called
    let mut m = chained_machine();
    let va = VirtAddr::from_bits(0x50000000000);
    let before = m.translate(va).unwrap();
    m.unmap_page(PhysAddr::from_bits(P3), 0);
    let stale = m.translate(va).unwrap();
    assert_eq!(stale, before);
    assert_eq!(m.stats.tlb.hit, 1);
    m.invalidate_tlb();
    assert!(m.translate(va).is_err());
}

#[test]
fn mapping_keeps_frame_bits_above_51() {
    // the frame field of an entry is bits 12 to 63: a target frame above
    // bit 51 survives the store and the walk returns it unchanged
    let mut m = chained_machine();
    m.map_page(
        PhysAddr::from_bits(P3),
        5,
        PhysAddr::from_bits(0x0010_0000_0000_0000),
    );
    let pa = m.translate(VirtAddr::from_bits((10 << 39) | (5 << 12) | 0x42)).unwrap();
    assert_eq!(pa.bits(), 0x0010_0000_0000_0042);
}

#[test]
fn enabled_predicates_guard_the_operations() {
    let mut m = chained_machine();
    // reads of mapped and unmapped pages may both run; the second faults
    assert!(m.translate_enabled(VirtAddr::from_bits(0x50000000000)));
    assert!(m.read_enabled(VirtAddr::from_bits(0x50000000000)));
    assert!(m.translate_enabled(VirtAddr::from_bits(11 << 39)));
    assert!(m.read_enabled(VirtAddr::from_bits(11 << 39)));
    // a table edit must stay inside the 1 MB memory
    assert!(m.table_edit_enabled(PhysAddr::from_bits(CR3), 511));
    assert!(!m.table_edit_enabled(PhysAddr::from_bits(CR3), 512));
    assert!(!m.table_edit_enabled(PhysAddr::from_bits(0x100000 - 4095), 0));
    assert!(m.table_edit_enabled(PhysAddr::from_bits(0x100000 - 4096), 0));
    assert!(m.action_enabled(Action::InvalidateTlb));
    assert!(m.action_enabled(Action::DumpStats));
    assert!(m.action_enabled(Action::Read(VirtAddr::from_bits(0x50000000000))));
    assert!(!m.action_enabled(Action::MapPage {
        table: PhysAddr::from_bits(0xfffff000),
        index: 0,
        target: PhysAddr::from_bits(P1),
    }));
    // a present level-1 entry pointing past memory disables the walk
    m.map_page(PhysAddr::from_bits(CR3), 12, PhysAddr::from_bits(0xfffff000));
    assert!(!m.translate_enabled(VirtAddr::from_bits(12 << 39)));
    assert!(!m.read_enabled(VirtAddr::from_bits(12 << 39)));
    // but a hit needs no walk: a cached page stays readable
    assert!(m.translate(VirtAddr::from_bits(0x50000000000)).is_ok());
    m.map_page(PhysAddr::from_bits(CR3), 10, PhysAddr::from_bits(0xfffff000));
    assert!(m.translate_enabled(VirtAddr::from_bits(0x50000000000)));
    assert!(m.translate(VirtAddr::from_bits(0x50000000000)).is_ok());
}

#[test]
fn num_mapped_entries_counts_present_slots() {
    let m = chained_machine();
    assert_eq!(m.num_mapped_entries(PhysAddr::from_bits(CR3)), 1);
    assert_eq!(m.num_mapped_entries(PhysAddr::from_bits(P2)), 2);
    assert_eq!(m.num_mapped_entries(PhysAddr::from_bits(P3)), 10);
    assert_eq!(m.num_mapped_entries(PhysAddr::from_bits(104 * 4096)), 0);
}

#[test]
fn page_table_at_decodes_entries() {
    let m = chained_machine();
    let root = m.page_table_at(PhysAddr::from_bits(CR3));
    assert!(root.entry(10).is_present());
    assert_eq!(root.entry(10).phys_addr().bits(), P1);
    assert!(!root.entry(11).is_present());
    assert_eq!(root.num_mapped_entries(), 1);
}
