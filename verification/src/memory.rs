//! A flat, fixed-size physical byte store. Page-table words are kept in it
//! as little-endian 64-bit values; loads and stores decode and encode them
//! explicitly, byte by byte, so every access is bounds-checked by contract
//! and no access ever reaches past the buffer.

use vstd::prelude::*;

use crate::addr::PhysAddr;
use crate::page::{PageTable, PageTableEntry};

verus! {

/// The little-endian 64-bit value held by the 8 bytes at `a`.
pub open spec fn spec_u64_at(m: Seq<u8>, a: int) -> u64 {
    (m[a] as u64) | ((m[a + 1] as u64) << 8) | ((m[a + 2] as u64) << 16) | ((m[a + 3] as u64)
        << 24) | ((m[a + 4] as u64) << 32) | ((m[a + 5] as u64) << 40) | ((m[a + 6] as u64) << 48)
        | ((m[a + 7] as u64) << 56)
}

/// The memory after the 8 bytes at `a` are replaced by `v`, little-endian.
pub open spec fn spec_store_u64(m: Seq<u8>, a: int, v: u64) -> Seq<u8> {
    m.update(a, (v & 0xff) as u8).update(a + 1, ((v >> 8) & 0xff) as u8).update(
        a + 2,
        ((v >> 16) & 0xff) as u8,
    ).update(a + 3, ((v >> 24) & 0xff) as u8).update(a + 4, ((v >> 32) & 0xff) as u8).update(
        a + 5,
        ((v >> 40) & 0xff) as u8,
    ).update(a + 6, ((v >> 48) & 0xff) as u8).update(a + 7, ((v >> 56) & 0xff) as u8)
}

/// Storing keeps the length.
pub proof fn lemma_store_u64_len(m: Seq<u8>, a: int, v: u64)
    requires
        0 <= a,
        a + 8 <= m.len(),
    ensures
        spec_store_u64(m, a, v).len() == m.len(),
{
}

/// Bytes outside the stored word are unchanged.
pub proof fn lemma_store_u64_frame(m: Seq<u8>, a: int, v: u64)
    requires
        0 <= a,
        a + 8 <= m.len(),
    ensures
        forall|i: int| 0 <= i < m.len() && !(a <= i < a + 8) ==> spec_store_u64(m, a, v)[i] == m[i],
{
}

/// Loading the word just stored gives the stored value back.
pub proof fn lemma_store_u64_load(m: Seq<u8>, a: int, v: u64)
    requires
        0 <= a,
        a + 8 <= m.len(),
    ensures
        spec_u64_at(spec_store_u64(m, a, v), a) == v,
{
    let s = spec_store_u64(m, a, v);
    assert(s[a] == (v & 0xff) as u8);
    assert(s[a + 1] == ((v >> 8) & 0xff) as u8);
    assert(s[a + 2] == ((v >> 16) & 0xff) as u8);
    assert(s[a + 3] == ((v >> 24) & 0xff) as u8);
    assert(s[a + 4] == ((v >> 32) & 0xff) as u8);
    assert(s[a + 5] == ((v >> 40) & 0xff) as u8);
    assert(s[a + 6] == ((v >> 48) & 0xff) as u8);
    assert(s[a + 7] == ((v >> 56) & 0xff) as u8);
    assert((((v & 0xff) as u8) as u64) | ((((v >> 8) & 0xff) as u8) as u64) << 8 | ((((v >> 16)
        & 0xff) as u8) as u64) << 16 | ((((v >> 24) & 0xff) as u8) as u64) << 24 | ((((v >> 32)
        & 0xff) as u8) as u64) << 32 | ((((v >> 40) & 0xff) as u8) as u64) << 40 | ((((v >> 48)
        & 0xff) as u8) as u64) << 48 | ((((v >> 56) & 0xff) as u8) as u64) << 56 == v)
        by (bit_vector);
}

/// A word loaded from bytes the store did not touch is unchanged.
pub proof fn lemma_store_u64_load_other(m: Seq<u8>, a: int, v: u64, b: int)
    requires
        0 <= a,
        a + 8 <= m.len(),
        0 <= b,
        b + 8 <= m.len(),
        b + 8 <= a || a + 8 <= b,
    ensures
        spec_u64_at(spec_store_u64(m, a, v), b) == spec_u64_at(m, b),
{
    lemma_store_u64_frame(m, a, v);
}

/// The flat physical byte store.
pub struct Memory {
    pub bytes: Vec<u8>,
}

impl View for Memory {
    type V = Seq<u8>;

    open spec fn view(&self) -> Seq<u8> {
        self.bytes@
    }
}

impl Memory {
    /// A zero-filled store of `mb` megabytes.
    pub fn megabytes(mb: usize) -> (r: Self)
        requires
            mb * 0x100000 <= usize::MAX,
        ensures
            r@.len() == mb * 0x100000,
            forall|i: int| 0 <= i < r@.len() ==> r@[i] == 0u8,
    {
        let len: usize = mb * 0x100000;
        let mut bytes: Vec<u8> = Vec::new();
        let mut i: usize = 0;
        while i < len
            invariant
                i <= len,
                bytes@.len() == i,
                forall|j: int| 0 <= j < i ==> bytes@[j] == 0u8,
            decreases len - i,
        {
            bytes.push(0);
            i = i + 1;
        }
        Memory { bytes }
    }

    pub fn len(&self) -> (r: usize)
        ensures
            r == self@.len(),
    {
        self.bytes.len()
    }

    /// The byte at `addr`.
    pub fn read_byte(&self, addr: u64) -> (r: u8)
        requires
            addr < self@.len(),
        ensures
            r == self@[addr as int],
    {
        let _mem_len: usize = self.bytes.len();
        self.bytes[addr as usize]
    }

    /// The little-endian 64-bit word at `addr`.
    pub fn read_u64(&self, addr: u64) -> (r: u64)
        requires
            addr + 8 <= self@.len(),
        ensures
            r == spec_u64_at(self@, addr as int),
    {
        let _mem_len: usize = self.bytes.len();
        let i: usize = addr as usize;
        let b0: u8 = self.bytes[i];
        let b1: u8 = self.bytes[i + 1];
        let b2: u8 = self.bytes[i + 2];
        let b3: u8 = self.bytes[i + 3];
        let b4: u8 = self.bytes[i + 4];
        let b5: u8 = self.bytes[i + 5];
        let b6: u8 = self.bytes[i + 6];
        let b7: u8 = self.bytes[i + 7];
        (b0 as u64) | ((b1 as u64) << 8) | ((b2 as u64) << 16) | ((b3 as u64) << 24) | ((b4 as u64)
            << 32) | ((b5 as u64) << 40) | ((b6 as u64) << 48) | ((b7 as u64) << 56)
    }

    /// Replace the 64-bit word at `addr`, little-endian.
    pub fn write_u64(&mut self, addr: u64, v: u64)
        requires
            addr + 8 <= old(self)@.len(),
        ensures
            final(self)@ == spec_store_u64(old(self)@, addr as int, v),
    {
        let _mem_len: usize = self.bytes.len();
        proof {
            assert(v & 0xff < 256 && (v >> 8) & 0xff < 256 && (v >> 16) & 0xff < 256 && (v >> 24)
                & 0xff < 256 && (v >> 32) & 0xff < 256 && (v >> 40) & 0xff < 256 && (v >> 48)
                & 0xff < 256 && (v >> 56) & 0xff < 256) by (bit_vector);
        }
        let i: usize = addr as usize;
        self.bytes[i] = (v & 0xff) as u8;
        self.bytes[i + 1] = ((v >> 8) & 0xff) as u8;
        self.bytes[i + 2] = ((v >> 16) & 0xff) as u8;
        self.bytes[i + 3] = ((v >> 24) & 0xff) as u8;
        self.bytes[i + 4] = ((v >> 32) & 0xff) as u8;
        self.bytes[i + 5] = ((v >> 40) & 0xff) as u8;
        self.bytes[i + 6] = ((v >> 48) & 0xff) as u8;
        self.bytes[i + 7] = ((v >> 56) & 0xff) as u8;
    }

    /// The 64 bytes of the cache block starting at `addr`.
    pub fn read_line(&self, addr: u64) -> (r: Vec<u8>)
        requires
            addr + 64 <= self@.len(),
        ensures
            r@ == self@.subrange(addr as int, addr as int + 64),
    {
        let _mem_len: usize = self.bytes.len();
        let base: usize = addr as usize;
        let mut line: Vec<u8> = Vec::new();
        let mut i: usize = 0;
        while i < 64
            invariant
                i <= 64,
                base == addr,
                _mem_len == self@.len(),
                addr + 64 <= self@.len(),
                line@ == self@.subrange(addr as int, addr as int + i),
            decreases 64 - i,
        {
            line.push(self.bytes[base + i]);
            proof {
                assert(line@ =~= self@.subrange(addr as int, addr as int + i + 1));
            }
            i = i + 1;
        }
        line
    }

    /// The page table whose 512 words start at `addr`.
    pub fn read_table(&self, addr: PhysAddr) -> (r: PageTable)
        requires
            addr@ + 4096 <= self@.len(),
        ensures
            r.wf(),
            forall|i: int|
                0 <= i < 512 ==> r.entries@[i].bits == spec_u64_at(self@, addr@ + 8 * i),
    {
        let _mem_len: usize = self.bytes.len();
        let base: u64 = addr.bits();
        let mut entries: Vec<PageTableEntry> = Vec::new();
        let mut i: usize = 0;
        while i < 512
            invariant
                i <= 512,
                base == addr@,
                _mem_len == self@.len(),
                addr@ + 4096 <= self@.len(),
                entries@.len() == i,
                forall|j: int|
                    0 <= j < i ==> entries@[j].bits == spec_u64_at(self@, addr@ + 8 * j),
            decreases 512 - i,
        {
            let word: u64 = self.read_u64(base + 8 * (i as u64));
            entries.push(PageTableEntry::from_bits(word));
            i = i + 1;
        }
        PageTable { entries }
    }
}

} // verus!
