//! Address decomposition, page-table-entry encoding and raw memory access.

use mmu_sim::addr::{PhysAddr, VirtAddr};
use mmu_sim::memory::Memory;
use mmu_sim::page::PageTableEntry;

#[test]
fn virt_addr_decomposition() {
    let va = VirtAddr::from_bits(0x50000202200);
    assert_eq!(va.vpn1(), 10);
    assert_eq!(va.vpn2(), 0);
    assert_eq!(va.vpn3(), 1);
    assert_eq!(va.vpn4(), 2);
    assert_eq!(va.page_offset(), 0x200);
    assert_eq!(va.virtual_page_number(), 0x50000202);
}

#[test]
fn virt_addr_add_bytes() {
    let va = VirtAddr::from_bits(0x1000);
    let moved = va.add_bytes(100);
    assert_eq!(moved.0, 0x1064);
    assert_eq!(moved.page_offset(), 0x64);
}

#[test]
fn phys_addr_frame_split() {
    let pa = PhysAddr::from_frame_offset(0x68, 0x2a);
    assert_eq!(pa.bits(), 0x6802a);
    assert_eq!(pa.frame_number(), 0x68);
    assert_eq!(pa.frame_offset(), 0x2a);
}

#[test]
fn phys_addr_with_offset_replaces_low_bits() {
    let pa = PhysAddr::from_bits(0x68fff);
    let r = pa.with_offset(0x12);
    assert_eq!(r.bits(), 0x68012);
    // only the low 12 bits of the offset are taken
    let r2 = pa.with_offset(0xabcd);
    assert_eq!(r2.bits(), 0x68bcd);
}

#[test]
fn pte_present_encoding() {
    let e = PageTableEntry::new_present(PhysAddr::from_bits(0x65000));
    assert!(e.is_present());
    assert_eq!(e.phys_addr().bits(), 0x65000);
    assert_eq!(e.bits, 0x65001);
}

#[test]
fn pte_offset_bits_cleared_frame_bits_kept() {
    // the offset bits of the target are forced to zero; the frame field is
    // the full bits 12 to 63
    let e = PageTableEntry::new_present(PhysAddr::from_bits(0xFFFF_FFFF_FFFF_FFFF));
    assert_eq!(e.phys_addr().bits(), 0xFFFF_FFFF_FFFF_F000);
    assert!(e.is_present());
    // a frame above bit 51 is kept, and bits 1 to 11 of the encoding are zero
    let high = PageTableEntry::new_present(PhysAddr::from_bits(0x0010_0000_0000_0000));
    assert_eq!(high.phys_addr().bits(), 0x0010_0000_0000_0000);
    assert_eq!(high.bits, 0x0010_0000_0000_0001);
}

#[test]
fn pte_unmapped_not_present() {
    let e = PageTableEntry::new_unmapped();
    assert!(!e.is_present());
    assert_eq!(e.phys_addr().bits(), 0);
}

#[test]
fn memory_starts_zeroed() {
    let m = Memory::megabytes(1);
    assert_eq!(m.len(), 0x100000);
    assert_eq!(m.read_u64(0), 0);
    assert_eq!(m.read_byte(0xfffff), 0);
}

#[test]
fn memory_u64_round_trip_little_endian() {
    let mut m = Memory::megabytes(1);
    m.write_u64(64, 0x0102030405060708);
    assert_eq!(m.read_u64(64), 0x0102030405060708);
    assert_eq!(m.read_byte(64), 0x08);
    assert_eq!(m.read_byte(65), 0x07);
    assert_eq!(m.read_byte(71), 0x01);
    // neighbouring words are untouched
    assert_eq!(m.read_u64(56), 0);
    assert_eq!(m.read_u64(72), 0);
}

#[test]
fn memory_read_line_contents() {
    let mut m = Memory::megabytes(1);
    m.write_u64(128, 0x1122334455667788);
    let line = m.read_line(128);
    assert_eq!(line.len(), 64);
    assert_eq!(line[0], 0x88);
    assert_eq!(line[7], 0x11);
    assert_eq!(line[8], 0);
}
