//! The L1 data cache: 64 sets of 8 ways, each way holding a 64-byte,
//! block-aligned line of physical memory. The set index is bits [6:11] of
//! the address's page offset; the tag is the frame number. On a miss the
//! victim is the last invalid way found by an ascending scan, or way 0 if
//! every way is valid — a fixed policy, not a recency-based one.

use vstd::prelude::*;

verus! {

/// The cache set index of a physical address.
pub open spec fn spec_cache_index(bits: u64) -> u64 {
    ((bits & 4095) >> 6) & 63
}

/// The offset of an address inside its 64-byte line.
pub open spec fn spec_cache_offset(bits: u64) -> u64 {
    (bits & 4095) & 63
}

/// The cache tag of a physical address: its frame number.
pub open spec fn spec_cache_tag(bits: u64) -> u64 {
    bits >> 12
}

/// The base address of the line holding `bits`.
pub open spec fn spec_block_base(bits: u64) -> u64 {
    bits & 0xFFFF_FFFF_FFFF_FFC0
}

/// The mathematical value of one way: its line as a byte sequence.
pub struct CacheEntryView {
    pub valid: bool,
    pub tag: u64,
    pub line: Seq<u8>,
}

/// One way of a cache set.
pub struct L1dCacheEntry {
    pub valid: bool,
    pub tag: u64,
    pub line: Vec<u8>,
}

impl View for L1dCacheEntry {
    type V = CacheEntryView;

    open spec fn view(&self) -> CacheEntryView {
        CacheEntryView { valid: self.valid, tag: self.tag, line: self.line@ }
    }
}

/// The value of a way that caches nothing.
pub open spec fn spec_cache_entry_empty() -> CacheEntryView {
    CacheEntryView { valid: false, tag: 0, line: Seq::new(64, |i: int| 0u8) }
}

impl L1dCacheEntry {
    pub fn empty() -> (r: Self)
        ensures
            r@ == spec_cache_entry_empty(),
    {
        let mut line: Vec<u8> = Vec::new();
        let mut i: usize = 0;
        while i < 64
            invariant
                i <= 64,
                line@.len() == i,
                forall|j: int| 0 <= j < i ==> line@[j] == 0u8,
            decreases 64 - i,
        {
            line.push(0);
            i = i + 1;
        }
        let r = L1dCacheEntry { valid: false, tag: 0, line };
        proof {
            assert(r@.line =~= spec_cache_entry_empty().line);
        }
        r
    }
}

/// The first way at or after `i` that is valid and carries `tag`, or
/// `s.len()` if none is.
pub open spec fn cache_hit_from(s: Seq<CacheEntryView>, tag: u64, i: int) -> int
    decreases s.len() - i when 0 <= i <= s.len()
{
    if i >= s.len() {
        i
    } else if s[i].valid && s[i].tag == tag {
        i
    } else {
        cache_hit_from(s, tag, i + 1)
    }
}

/// The way a lookup of `tag` hits, or `s.len()` on a miss.
pub open spec fn cache_hit_way(s: Seq<CacheEntryView>, tag: u64) -> int {
    cache_hit_from(s, tag, 0)
}

/// The hit scan never answers below its start nor past the end.
pub proof fn lemma_cache_hit_range(s: Seq<CacheEntryView>, tag: u64, i: int)
    requires
        0 <= i <= s.len(),
    ensures
        i <= cache_hit_from(s, tag, i) <= s.len(),
    decreases s.len() - i,
{
    if i < s.len() && !(s[i].valid && s[i].tag == tag) {
        lemma_cache_hit_range(s, tag, i + 1);
    }
}

/// A miss means no way matches: if the scan from `i` runs off the end,
/// nothing at or after `i` is a valid match.
pub proof fn lemma_cache_miss_no_match(s: Seq<CacheEntryView>, tag: u64, i: int)
    requires
        0 <= i <= s.len(),
        cache_hit_from(s, tag, i) == s.len(),
    ensures
        forall|j: int| i <= j < s.len() ==> !((#[trigger] s[j]).valid && s[j].tag == tag),
    decreases s.len() - i,
{
    if i < s.len() {
        lemma_cache_miss_no_match(s, tag, i + 1);
    }
}

/// If no way at or after `i` is a valid match, the scan runs off the end.
pub proof fn lemma_cache_no_match_misses(s: Seq<CacheEntryView>, tag: u64, i: int)
    requires
        0 <= i <= s.len(),
        forall|j: int| i <= j < s.len() ==> !((#[trigger] s[j]).valid && s[j].tag == tag),
    ensures
        cache_hit_from(s, tag, i) == s.len(),
    decreases s.len() - i,
{
    if i < s.len() {
        lemma_cache_no_match_misses(s, tag, i + 1);
    }
}

/// The scan finds exactly the first match: if nothing in `[i, w)` matches
/// and way `w` does, the scan from `i` stops at `w`.
pub proof fn lemma_cache_hit_from_eq(s: Seq<CacheEntryView>, tag: u64, i: int, w: int)
    requires
        0 <= i <= w < s.len(),
        forall|j: int| i <= j < w ==> !((#[trigger] s[j]).valid && s[j].tag == tag),
        s[w].valid && s[w].tag == tag,
    ensures
        cache_hit_from(s, tag, i) == w,
    decreases w - i,
{
    if i < w {
        lemma_cache_hit_from_eq(s, tag, i + 1, w);
    }
}

/// The victim of an insert among the first `n` ways: the last invalid way,
/// or way 0 if all are valid.
pub open spec fn cache_victim_upto(s: Seq<CacheEntryView>, n: int) -> int
    decreases n when 0 <= n <= s.len()
{
    if n <= 0 {
        0
    } else if !s[n - 1].valid {
        n - 1
    } else {
        cache_victim_upto(s, n - 1)
    }
}

/// The way an insert into `s` overwrites.
pub open spec fn cache_victim_way(s: Seq<CacheEntryView>) -> int {
    cache_victim_upto(s, s.len() as int)
}

/// How many of the first `n` ways are valid.
pub open spec fn cache_valid_count(s: Seq<CacheEntryView>, n: int) -> int
    decreases n,
{
    if n <= 0 {
        0
    } else {
        cache_valid_count(s, n - 1) + if s[n - 1].valid {
            1int
        } else {
            0int
        }
    }
}

/// At most `n` of the first `n` ways can be valid.
pub proof fn lemma_cache_valid_count_le(s: Seq<CacheEntryView>, n: int)
    requires
        0 <= n,
    ensures
        0 <= cache_valid_count(s, n) <= n,
    decreases n,
{
    if n > 0 {
        lemma_cache_valid_count_le(s, n - 1);
    }
}

/// The victim of an insert is one of the scanned ways.
pub proof fn lemma_cache_victim_range(s: Seq<CacheEntryView>, n: int)
    requires
        1 <= n <= s.len(),
    ensures
        0 <= cache_victim_upto(s, n) < n,
    decreases n,
{
    if s[n - 1].valid {
        if n == 1 {
            assert(cache_victim_upto(s, 0) == 0);
        } else {
            lemma_cache_victim_range(s, n - 1);
        }
    }
}

/// One set of 8 ways.
pub struct L1dCacheSet {
    pub entries: Vec<L1dCacheEntry>,
}

impl View for L1dCacheSet {
    type V = Seq<CacheEntryView>;

    open spec fn view(&self) -> Seq<CacheEntryView> {
        self.entries@.map_values(|e: L1dCacheEntry| e@)
    }
}

/// The contents of one empty set.
pub open spec fn spec_empty_cache_set() -> Seq<CacheEntryView> {
    Seq::new(8, |i: int| spec_cache_entry_empty())
}

/// The contents of an empty cache: 64 empty sets.
pub open spec fn spec_empty_cache() -> Seq<Seq<CacheEntryView>> {
    Seq::new(64, |i: int| spec_empty_cache_set())
}

impl L1dCacheSet {
    pub open spec fn wf(&self) -> bool {
        &&& self@.len() == 8
        &&& forall|i: int| 0 <= i < 8 ==> (#[trigger] self@[i]).line.len() == 64
    }

    pub fn empty() -> (r: Self)
        ensures
            r.wf(),
            r@ == spec_empty_cache_set(),
    {
        let mut entries: Vec<L1dCacheEntry> = Vec::new();
        let mut i: usize = 0;
        while i < 8
            invariant
                i <= 8,
                entries@.len() == i,
                forall|j: int| 0 <= j < i ==> (#[trigger] entries@[j])@ == spec_cache_entry_empty(),
            decreases 8 - i,
        {
            entries.push(L1dCacheEntry::empty());
            i = i + 1;
        }
        let r = L1dCacheSet { entries };
        proof {
            assert(r@ =~= spec_empty_cache_set());
        }
        r
    }

    /// Whether any way of the set is valid.
    pub fn has_entry(&self) -> (r: bool)
        requires
            self.wf(),
        ensures
            r == exists|i: int| 0 <= i < 8 && (#[trigger] self@[i]).valid,
    {
        let mut i: usize = 0;
        while i < 8
            invariant
                self.wf(),
                i <= 8,
                forall|j: int| 0 <= j < i ==> !(#[trigger] self@[j]).valid,
            decreases 8 - i,
        {
            if self.entries[i].valid {
                proof {
                    assert(self@[i as int].valid);
                }
                return true;
            }
            i = i + 1;
        }
        false
    }

    /// The way holding `tag`, if any.
    pub fn lookup_way(&self, tag: u64) -> (w: usize)
        requires
            self.wf(),
        ensures
            w == cache_hit_way(self@, tag),
            w <= 8,
            w < 8 ==> self@[w as int].valid && self@[w as int].tag == tag,
    {
        let mut i: usize = 0;
        while i < 8
            invariant
                self.wf(),
                i <= 8,
                cache_hit_way(self@, tag) == cache_hit_from(self@, tag, i as int),
            decreases 8 - i,
        {
            if self.entries[i].valid && self.entries[i].tag == tag {
                return i;
            }
            i = i + 1;
        }
        8
    }

    /// The way an insert would overwrite: the scan keeps the last invalid
    /// way it sees and falls back to way 0.
    pub fn victim_way(&self) -> (w: usize)
        requires
            self.wf(),
        ensures
            w == cache_victim_way(self@),
            w < 8,
    {
        let mut k: usize = 0;
        let mut i: usize = 0;
        while i < 8
            invariant
                self.wf(),
                i <= 8,
                k < 8,
                k == cache_victim_upto(self@, i as int),
            decreases 8 - i,
        {
            if !self.entries[i].valid {
                k = i;
            }
            i = i + 1;
        }
        k
    }
}

/// The whole cache: 64 sets.
pub struct L1dCache {
    pub sets: Vec<L1dCacheSet>,
}

impl View for L1dCache {
    type V = Seq<Seq<CacheEntryView>>;

    open spec fn view(&self) -> Seq<Seq<CacheEntryView>> {
        self.sets@.map_values(|s: L1dCacheSet| s@)
    }
}

impl L1dCache {
    pub open spec fn wf(&self) -> bool {
        &&& self@.len() == 64
        &&& forall|i: int|
            0 <= i < 64 ==> (#[trigger] self@[i]).len() == 8 && (forall|j: int|
                0 <= j < 8 ==> (#[trigger] self@[i][j]).line.len() == 64)
    }

    /// A cache with every way invalid.
    pub fn empty() -> (r: Self)
        ensures
            r.wf(),
            r@ == spec_empty_cache(),
    {
        let mut sets: Vec<L1dCacheSet> = Vec::new();
        let mut i: usize = 0;
        while i < 64
            invariant
                i <= 64,
                sets@.len() == i,
                forall|j: int| 0 <= j < i ==> (#[trigger] sets@[j])@ == spec_empty_cache_set(),
            decreases 64 - i,
        {
            sets.push(L1dCacheSet::empty());
            i = i + 1;
        }
        let r = L1dCache { sets };
        proof {
            assert(r@ =~= spec_empty_cache());
        }
        r
    }
}

} // verus!
