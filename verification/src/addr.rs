//! Physical and virtual address values: pure bit manipulation over 64-bit
//! integers. A physical address splits into a frame number (bits 12 and up)
//! and a 12-bit page offset; a virtual address additionally splits its page
//! number into four 9-bit page-table indices.

use vstd::prelude::*;

verus! {

/// Mask that keeps everything but the 12-bit page offset.
pub const PAGE_BASE_MASK: u64 = 0xFFFF_FFFF_FFFF_F000;

/// The page offset of an address: its low 12 bits.
pub open spec fn spec_page_offset(bits: u64) -> u64 {
    bits & 4095
}

/// The page (or frame) number of an address: the bits above the offset.
pub open spec fn spec_page_number(bits: u64) -> u64 {
    bits >> 12
}

/// The low 12 bits of `bits` replaced by the low 12 bits of `offset`.
pub open spec fn spec_with_offset(bits: u64, offset: u64) -> u64 {
    (bits & PAGE_BASE_MASK) | (offset & 4095)
}

/// The four 9-bit page-table indices of a virtual address, highest level
/// first: bits [39:47], [30:38], [21:29] and [12:20].
pub open spec fn spec_vpn1(bits: u64) -> u64 {
    (bits >> 39) & 511
}

pub open spec fn spec_vpn2(bits: u64) -> u64 {
    (bits >> 30) & 511
}

pub open spec fn spec_vpn3(bits: u64) -> u64 {
    (bits >> 21) & 511
}

pub open spec fn spec_vpn4(bits: u64) -> u64 {
    (bits >> 12) & 511
}

/// An address in physical memory.
#[derive(Clone, Copy, PartialEq, Eq, Structural, Debug)]
pub struct PhysAddr(pub u64);

impl View for PhysAddr {
    type V = u64;

    open spec fn view(&self) -> u64 {
        self.0
    }
}

impl PhysAddr {
    pub fn from_bits(bits: u64) -> (r: Self)
        ensures
            r@ == bits,
    {
        PhysAddr(bits)
    }

    pub fn from_frame_offset(frame: u64, offset: u64) -> (r: Self)
        requires
            frame < 1u64 << 52,
        ensures
            r@ == (frame << 12) | offset,
    {
        PhysAddr((frame << 12) | offset)
    }

    /// This address with its page offset replaced by `offset`.
    pub fn with_offset(self, offset: u64) -> (r: Self)
        ensures
            r@ == spec_with_offset(self@, offset),
    {
        PhysAddr((self.0 & PAGE_BASE_MASK) | (offset & 4095))
    }

    /// The offset of this address inside its frame.
    pub fn frame_offset(self) -> (r: usize)
        ensures
            r == spec_page_offset(self@),
            r < 4096,
    {
        proof {
            let b: u64 = self.0;
            assert(b & 4095 < 4096) by (bit_vector);
        }
        (self.0 & 4095) as usize
    }

    pub fn frame_number(self) -> (r: u64)
        ensures
            r == spec_page_number(self@),
    {
        self.0 >> 12
    }

    pub fn bits(self) -> (r: u64)
        ensures
            r == self@,
    {
        self.0
    }
}

/// An address in a virtual address space.
#[derive(Clone, Copy, PartialEq, Eq, Structural, Debug)]
pub struct VirtAddr(pub u64);

impl View for VirtAddr {
    type V = u64;

    open spec fn view(&self) -> u64 {
        self.0
    }
}

impl VirtAddr {
    pub fn from_bits(bits: u64) -> (r: Self)
        ensures
            r@ == bits,
    {
        VirtAddr(bits)
    }

    pub fn page_offset(self) -> (r: u64)
        ensures
            r == spec_page_offset(self@),
            r < 4096,
    {
        proof {
            let b: u64 = self.0;
            assert(b & 4095 < 4096) by (bit_vector);
        }
        self.0 & 4095
    }

    pub fn virtual_page_number(self) -> (r: u64)
        ensures
            r == spec_page_number(self@),
    {
        self.0 >> 12
    }

    pub fn vpn1(self) -> (r: usize)
        ensures
            r == spec_vpn1(self@),
            r < 512,
    {
        proof {
            let b: u64 = self.0;
            assert((b >> 39) & 511 < 512) by (bit_vector);
        }
        ((self.0 >> 39) & 511) as usize
    }

    pub fn vpn2(self) -> (r: usize)
        ensures
            r == spec_vpn2(self@),
            r < 512,
    {
        proof {
            let b: u64 = self.0;
            assert((b >> 30) & 511 < 512) by (bit_vector);
        }
        ((self.0 >> 30) & 511) as usize
    }

    pub fn vpn3(self) -> (r: usize)
        ensures
            r == spec_vpn3(self@),
            r < 512,
    {
        proof {
            let b: u64 = self.0;
            assert((b >> 21) & 511 < 512) by (bit_vector);
        }
        ((self.0 >> 21) & 511) as usize
    }

    pub fn vpn4(self) -> (r: usize)
        ensures
            r == spec_vpn4(self@),
            r < 512,
    {
        proof {
            let b: u64 = self.0;
            assert((b >> 12) & 511 < 512) by (bit_vector);
        }
        ((self.0 >> 12) & 511) as usize
    }

    /// This address moved forward by `count` bytes.
    pub fn add_bytes(self, count: u64) -> (r: Self)
        requires
            self@ + count <= u64::MAX,
        ensures
            r@ == self@ + count,
    {
        VirtAddr(self.0 + count)
    }
}

} // verus!
