//! The translation lookaside buffer: 128 sets of 4 ways, each way caching one
//! virtual-page-number -> physical-frame translation. The set index is the
//! low 7 bits of the virtual page number; the tag is the page number with
//! those bits cleared. On a miss the victim is the first invalid way, or the
//! way with the lowest access counter (lowest index wins ties); every access
//! counter of the set is then reset before the new entry is written.

use vstd::prelude::*;

use crate::addr::PhysAddr;

verus! {

/// The TLB set index of a virtual page number: its low 7 bits.
pub open spec fn spec_tlb_index(vpn: u64) -> u64 {
    vpn & 127
}

/// The TLB tag of a virtual page number: the bits above the set index.
pub open spec fn spec_tlb_tag(vpn: u64) -> u64 {
    (vpn >> 7) << 7
}

/// One way of a TLB set.
#[derive(Clone, Copy, PartialEq, Eq, Structural, Debug)]
pub struct TlbEntry {
    pub valid: bool,
    pub access: u8,
    pub tag: u64,
    pub addr: PhysAddr,
}

/// The value of a way that caches nothing.
pub open spec fn spec_tlb_entry_invalid() -> TlbEntry {
    TlbEntry { valid: false, access: 0, tag: 0, addr: PhysAddr(0) }
}

/// `e` with its access counter bumped, saturating.
pub open spec fn spec_mark_accessed(e: TlbEntry) -> TlbEntry {
    TlbEntry { access: if e.access == 255 { 255u8 } else { (e.access + 1) as u8 }, ..e }
}

/// `e` with its access counter cleared.
pub open spec fn spec_clear_access(e: TlbEntry) -> TlbEntry {
    TlbEntry { access: 0, ..e }
}

impl TlbEntry {
    pub fn invalid() -> (r: Self)
        ensures
            r == spec_tlb_entry_invalid(),
    {
        TlbEntry { valid: false, access: 0, tag: 0, addr: PhysAddr(0) }
    }

    /// Bump the access counter; it saturates instead of wrapping.
    pub fn mark_accessed(&mut self)
        ensures
            *final(self) == spec_mark_accessed(*old(self)),
    {
        if self.access < 255 {
            self.access = self.access + 1;
        }
    }
}

/// The first way at or after `i` that is valid and carries `tag`, or
/// `s.len()` if none is.
pub open spec fn tlb_hit_from(s: Seq<TlbEntry>, tag: u64, i: int) -> int
    decreases s.len() - i when 0 <= i <= s.len()
{
    if i >= s.len() {
        i
    } else if s[i].valid && s[i].tag == tag {
        i
    } else {
        tlb_hit_from(s, tag, i + 1)
    }
}

/// The way a lookup of `tag` hits, or `s.len()` on a miss.
pub open spec fn tlb_hit_way(s: Seq<TlbEntry>, tag: u64) -> int {
    tlb_hit_from(s, tag, 0)
}

/// The first invalid way at or after `i`, or `s.len()` if all are valid.
pub open spec fn tlb_first_invalid_from(s: Seq<TlbEntry>, i: int) -> int
    decreases s.len() - i when 0 <= i <= s.len()
{
    if i >= s.len() {
        i
    } else if !s[i].valid {
        i
    } else {
        tlb_first_invalid_from(s, i + 1)
    }
}

/// Among the first `n` ways, the one with the lowest access counter; the
/// lowest index wins ties.
pub open spec fn tlb_min_access_upto(s: Seq<TlbEntry>, n: int) -> int
    decreases n when 1 <= n <= s.len()
{
    if n <= 1 {
        0
    } else {
        let k = tlb_min_access_upto(s, n - 1);
        if s[n - 1].access < s[k].access {
            n - 1
        } else {
            k
        }
    }
}

/// The way an insert into `s` overwrites: the first invalid way, or, with
/// all ways valid, the least-recently-bumped one.
pub open spec fn tlb_victim_way(s: Seq<TlbEntry>) -> int {
    if tlb_first_invalid_from(s, 0) < s.len() {
        tlb_first_invalid_from(s, 0)
    } else {
        tlb_min_access_upto(s, s.len() as int)
    }
}

/// A set after an insert of `tag -> addr`: the victim way is overwritten
/// and every access counter of the set is reset first; the new entry then
/// gets counter 1 by the same accessed-marking used on hits.
pub open spec fn tlb_set_insert(s: Seq<TlbEntry>, tag: u64, addr: u64) -> Seq<TlbEntry> {
    let k = tlb_victim_way(s);
    Seq::new(
        s.len(),
        |i: int|
            if i == k {
                TlbEntry { valid: true, access: 1, tag, addr: PhysAddr(addr) }
            } else {
                spec_clear_access(s[i])
            },
    )
}

/// One set of 4 ways.
pub struct TlbEntrySet {
    pub entries: Vec<TlbEntry>,
}

impl View for TlbEntrySet {
    type V = Seq<TlbEntry>;

    open spec fn view(&self) -> Seq<TlbEntry> {
        self.entries@
    }
}

impl TlbEntrySet {
    pub open spec fn wf(&self) -> bool {
        self@.len() == 4
    }

    pub fn empty() -> (r: Self)
        ensures
            r.wf(),
            r@ == spec_empty_tlb_set(),
    {
        let mut entries: Vec<TlbEntry> = Vec::new();
        entries.push(TlbEntry::invalid());
        entries.push(TlbEntry::invalid());
        entries.push(TlbEntry::invalid());
        entries.push(TlbEntry::invalid());
        proof {
            assert(entries@ =~= spec_empty_tlb_set());
        }
        TlbEntrySet { entries }
    }

    /// The way holding `tag`, if any: the scan order is ascending, though at
    /// most one way can match within one lookup/insert discipline.
    pub fn lookup_way(&self, tag: u64) -> (w: usize)
        requires
            self.wf(),
        ensures
            w == tlb_hit_way(self@, tag),
            w <= 4,
            w < 4 ==> self@[w as int].valid && self@[w as int].tag == tag,
    {
        let mut i: usize = 0;
        while i < 4
            invariant
                self.wf(),
                i <= 4,
                tlb_hit_way(self@, tag) == tlb_hit_from(self@, tag, i as int),
            decreases 4 - i,
        {
            if self.entries[i].valid && self.entries[i].tag == tag {
                return i;
            }
            i = i + 1;
        }
        4
    }

    /// The way an insert would overwrite.
    pub fn victim_way(&self) -> (w: usize)
        requires
            self.wf(),
        ensures
            w == tlb_victim_way(self@),
            w < 4,
    {
        let mut k: usize = 0;
        let mut i: usize = 0;
        while i < 4
            invariant_except_break
                self.wf(),
                i <= 4,
                k < 4,
                i == 0 ==> k == 0,
                i >= 1 ==> k == tlb_min_access_upto(self@, i as int),
                forall|j: int| 0 <= j < i ==> self@[j].valid,
                tlb_first_invalid_from(self@, 0) == tlb_first_invalid_from(self@, i as int),
            ensures
                k == tlb_victim_way(self@),
                k < 4,
            decreases 4 - i,
        {
            if !self.entries[i].valid {
                k = i;
                proof {
                    assert(tlb_first_invalid_from(self@, i as int) == i);
                }
                break;
            }
            let ghost k0 = k as int;
            if self.entries[i].access < self.entries[k].access {
                k = i;
            }
            proof {
                if i == 0 {
                    assert(tlb_min_access_upto(self@, 1) == 0);
                } else {
                    assert(tlb_min_access_upto(self@, i as int + 1) == if self@[i as int].access
                        < self@[k0].access {
                        i as int
                    } else {
                        k0
                    });
                }
            }
            i = i + 1;
        }
        k
    }
}

impl TlbEntrySet {
    /// Install `tag -> addr` over the victim way: every access counter of
    /// the set is reset, then the victim is overwritten and marked accessed
    /// once.
    pub fn insert_entry(&mut self, tag: u64, addr: PhysAddr)
        requires
            old(self).wf(),
        ensures
            final(self).wf(),
            final(self)@ == tlb_set_insert(old(self)@, tag, addr@),
    {
        let k = self.victim_way();
        let mut j: usize = 0;
        while j < 4
            invariant
                self@.len() == 4,
                j <= 4,
                forall|t: int| 0 <= t < j ==> self@[t] == spec_clear_access(old(self)@[t]),
                forall|t: int| j <= t < 4 ==> self@[t] == old(self)@[t],
                k == tlb_victim_way(old(self)@),
                k < 4,
            decreases 4 - j,
        {
            self.entries[j].access = 0;
            j = j + 1;
        }
        let mut e = TlbEntry { valid: true, access: 0, tag, addr };
        e.mark_accessed();
        self.entries[k] = e;
        proof {
            assert(self@ =~= tlb_set_insert(old(self)@, tag, addr@));
        }
    }
}

/// How many of the first `n` ways are valid.
pub open spec fn tlb_valid_count(s: Seq<TlbEntry>, n: int) -> int
    decreases n,
{
    if n <= 0 {
        0
    } else {
        tlb_valid_count(s, n - 1) + if s[n - 1].valid {
            1int
        } else {
            0int
        }
    }
}

/// At most `n` of the first `n` ways can be valid.
pub proof fn lemma_tlb_valid_count_le(s: Seq<TlbEntry>, n: int)
    requires
        0 <= n,
    ensures
        0 <= tlb_valid_count(s, n) <= n,
    decreases n,
{
    if n > 0 {
        lemma_tlb_valid_count_le(s, n - 1);
    }
}

/// A miss means no way matches: if the scan from `i` runs off the end,
/// nothing at or after `i` is a valid match.
pub proof fn lemma_tlb_miss_no_match(s: Seq<TlbEntry>, tag: u64, i: int)
    requires
        0 <= i <= s.len(),
        tlb_hit_from(s, tag, i) == s.len(),
    ensures
        forall|j: int| i <= j < s.len() ==> !((#[trigger] s[j]).valid && s[j].tag == tag),
    decreases s.len() - i,
{
    if i < s.len() {
        lemma_tlb_miss_no_match(s, tag, i + 1);
    }
}

/// The scan finds exactly the first match: if nothing in `[i, w)` matches
/// and way `w` does, the scan from `i` stops at `w`.
pub proof fn lemma_tlb_hit_from_eq(s: Seq<TlbEntry>, tag: u64, i: int, w: int)
    requires
        0 <= i <= w < s.len(),
        forall|j: int| i <= j < w ==> !((#[trigger] s[j]).valid && s[j].tag == tag),
        s[w].valid && s[w].tag == tag,
    ensures
        tlb_hit_from(s, tag, i) == w,
    decreases w - i,
{
    if i < w {
        lemma_tlb_hit_from_eq(s, tag, i + 1, w);
    }
}

/// The hit scan never answers below its start nor past the end.
pub proof fn lemma_tlb_hit_range(s: Seq<TlbEntry>, tag: u64, i: int)
    requires
        0 <= i <= s.len(),
    ensures
        i <= tlb_hit_from(s, tag, i) <= s.len(),
    decreases s.len() - i,
{
    if i < s.len() && !(s[i].valid && s[i].tag == tag) {
        lemma_tlb_hit_range(s, tag, i + 1);
    }
}

/// If no way at or after `i` is a valid match, the scan runs off the end.
pub proof fn lemma_tlb_no_match_misses(s: Seq<TlbEntry>, tag: u64, i: int)
    requires
        0 <= i <= s.len(),
        forall|j: int| i <= j < s.len() ==> !((#[trigger] s[j]).valid && s[j].tag == tag),
    ensures
        tlb_hit_from(s, tag, i) == s.len(),
    decreases s.len() - i,
{
    if i < s.len() {
        lemma_tlb_no_match_misses(s, tag, i + 1);
    }
}

/// The argmin of the first `n` access counters lies among them.
pub proof fn lemma_tlb_min_upto_range(s: Seq<TlbEntry>, n: int)
    requires
        1 <= n <= s.len(),
    ensures
        0 <= tlb_min_access_upto(s, n) < n,
    decreases n,
{
    if n > 1 {
        lemma_tlb_min_upto_range(s, n - 1);
    }
}

/// The victim of an insert is one of the set's ways.
pub proof fn lemma_tlb_victim_in_range(s: Seq<TlbEntry>)
    requires
        s.len() == 4,
    ensures
        0 <= tlb_victim_way(s) < 4,
{
    if tlb_first_invalid_from(s, 0) >= 4 {
        lemma_tlb_min_upto_range(s, 4);
    } else {
        lemma_tlb_first_invalid_range(s, 0);
    }
}

/// The first-invalid scan never answers below its start.
pub proof fn lemma_tlb_first_invalid_range(s: Seq<TlbEntry>, i: int)
    requires
        0 <= i <= s.len(),
    ensures
        i <= tlb_first_invalid_from(s, i) <= s.len(),
    decreases s.len() - i,
{
    if i < s.len() && s[i].valid {
        lemma_tlb_first_invalid_range(s, i + 1);
    }
}

/// The contents of one empty set.
pub open spec fn spec_empty_tlb_set() -> Seq<TlbEntry> {
    Seq::new(4, |i: int| spec_tlb_entry_invalid())
}

/// The contents of an empty TLB: 128 empty sets.
pub open spec fn spec_empty_tlb() -> Seq<Seq<TlbEntry>> {
    Seq::new(128, |i: int| spec_empty_tlb_set())
}

/// The whole buffer: 128 sets.
pub struct Tlb {
    pub sets: Vec<TlbEntrySet>,
}

impl View for Tlb {
    type V = Seq<Seq<TlbEntry>>;

    open spec fn view(&self) -> Seq<Seq<TlbEntry>> {
        self.sets@.map_values(|s: TlbEntrySet| s@)
    }
}

impl Tlb {
    pub open spec fn wf(&self) -> bool {
        &&& self@.len() == 128
        &&& forall|i: int| 0 <= i < 128 ==> (#[trigger] self@[i]).len() == 4
    }

    /// A buffer with every way invalid.
    pub fn empty() -> (r: Self)
        ensures
            r.wf(),
            r@ == spec_empty_tlb(),
    {
        let mut sets: Vec<TlbEntrySet> = Vec::new();
        let mut i: usize = 0;
        while i < 128
            invariant
                i <= 128,
                sets@.len() == i,
                forall|j: int| 0 <= j < i ==> (#[trigger] sets@[j])@ == spec_empty_tlb_set(),
            decreases 128 - i,
        {
            sets.push(TlbEntrySet::empty());
            i = i + 1;
        }
        let r = Tlb { sets };
        proof {
            assert(r@ =~= spec_empty_tlb());
        }
        r
    }
}

} // verus!
