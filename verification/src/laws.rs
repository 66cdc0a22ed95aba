//! The general laws of the simulator, each proved once and for all over the
//! model: the fixed geometry bounds what any set can hold, an unmapped slot
//! makes every walk through it fault, a translation cached by a miss is hit
//! by every later lookup of the same page, a run is a pure function of the
//! starting state and the action sequence, and the locality and stride
//! access patterns produce exactly the hit and miss counts their shapes
//! dictate.

use vstd::prelude::*;

use crate::addr::{spec_page_number, spec_page_offset, spec_with_offset};
use crate::cache::{
    cache_hit_way, cache_valid_count, lemma_cache_valid_count_le, lemma_cache_victim_range,
};
use crate::model::{
    spec_pte_at, spec_read_phys, spec_run, spec_step, spec_tlb_hits, spec_translate,
    spec_unmap_page, spec_va_set, spec_va_tag, spec_walk, spec_walk3, Action, MachineView,
};
use crate::memory::lemma_store_u64_load;
use crate::page::spec_pte_present;
use crate::tlb::{
    lemma_tlb_hit_from_eq, lemma_tlb_hit_range, lemma_tlb_miss_no_match, lemma_tlb_valid_count_le,
    lemma_tlb_victim_in_range, tlb_hit_way, tlb_set_insert, tlb_valid_count, tlb_victim_way,
    TlbEntry,
};

verus! {

/// A TLB set index is always one of the 128 sets.
proof fn lemma_va_set_in_range(va: u64)
    ensures
        0 <= spec_va_set(va) < 128,
{
    let vpn = spec_page_number(va);
    assert(vpn & 127 < 128) by (bit_vector);
}

/// A cache set index is always one of the 64 sets.
proof fn lemma_cache_index_in_range(pa: u64)
    ensures
        0 <= crate::cache::spec_cache_index(pa) < 64,
{
    assert(((pa & 4095) >> 6) & 63 < 64) by (bit_vector);
}

/// `translate` keeps the machine's geometry.
pub proof fn lemma_translate_preserves_wf(m: MachineView, va: u64)
    requires
        m.wf(),
    ensures
        spec_translate(m, va).0.wf(),
{
    lemma_va_set_in_range(va);
    let si = spec_va_set(va);
    let set = m.tlb[si];
    lemma_tlb_hit_range(set, spec_va_tag(va), 0);
    if !spec_tlb_hits(m, va) && spec_walk(m.mem, m.cr3, va) is Some {
        lemma_tlb_victim_in_range(set);
    }
}

/// `read_phys` keeps the machine's geometry.
pub proof fn lemma_read_phys_preserves_wf(m: MachineView, pa: u64)
    requires
        m.wf(),
        crate::model::spec_read_phys_enabled(m, pa),
    ensures
        spec_read_phys(m, pa).0.wf(),
{
    lemma_cache_index_in_range(pa);
    let si = crate::cache::spec_cache_index(pa) as int;
    let set = m.cache[si];
    if !(cache_hit_way(set, crate::cache::spec_cache_tag(pa)) < 8) {
        lemma_cache_victim_range(set, 8);
    }
}

/// Every single action keeps the machine's geometry.
pub proof fn lemma_step_preserves_wf(m: MachineView, a: Action)
    requires
        m.wf(),
        crate::model::spec_step_enabled(m, a),
    ensures
        spec_step(m, a).wf(),
{
    match a {
        Action::Read(va) => {
            lemma_translate_preserves_wf(m, va@);
            let (m1, t) = spec_translate(m, va@);
            if t is Some {
                lemma_read_phys_preserves_wf(m1, t->Some_0);
            }
        },
        _ => {},
    }
}

/// Every run keeps the machine's geometry.
pub proof fn lemma_run_preserves_wf(m: MachineView, actions: Seq<Action>)
    requires
        m.wf(),
        crate::model::spec_run_enabled(m, actions),
    ensures
        spec_run(m, actions).wf(),
    decreases actions.len(),
{
    if actions.len() > 0 {
        lemma_step_preserves_wf(m, actions[0]);
        lemma_run_preserves_wf(spec_step(m, actions[0]), actions.skip(1));
    }
}

/// Containment: at any point of any run, a TLB set holds at most 4 valid
/// entries and a cache set holds at most 8 valid lines — the sets cannot
/// grow past their ways.
pub proof fn lemma_containment(m: MachineView, actions: Seq<Action>, si: int, ci: int)
    requires
        m.wf(),
        crate::model::spec_run_enabled(m, actions),
        0 <= si < 128,
        0 <= ci < 64,
    ensures
        tlb_valid_count(spec_run(m, actions).tlb[si], 4) <= 4,
        cache_valid_count(spec_run(m, actions).cache[ci], 8) <= 8,
{
    lemma_run_preserves_wf(m, actions);
    lemma_tlb_valid_count_le(spec_run(m, actions).tlb[si], 4);
    lemma_cache_valid_count_le(spec_run(m, actions).cache[ci], 8);
}

/// Unmap effect: after a slot of a level-4 table is unmapped, every walk
/// that resolves its last level through that slot faults, and so does a
/// translation of such an address whenever the TLB does not answer first.
/// (A stale TLB entry can still answer until `invalidate_tlb` runs: the
/// edit touches memory only.)
pub proof fn lemma_unmap_blocks_translation(m: MachineView, loc: u64, idx: u64, va: u64)
    requires
        m.wf(),
        idx < 512,
        loc + 4096 <= m.mem.len(),
        spec_walk3(spec_unmap_page(m, loc, idx).mem, m.cr3, va) == Some(loc),
        crate::addr::spec_vpn4(va) == idx,
    ensures
        spec_walk(spec_unmap_page(m, loc, idx).mem, m.cr3, va) is None,
        !spec_tlb_hits(spec_unmap_page(m, loc, idx), va) ==> spec_translate(
            spec_unmap_page(m, loc, idx),
            va,
        ).1 is None,
{
    let m2 = spec_unmap_page(m, loc, idx);
    lemma_store_u64_load(m.mem, loc + 8 * idx, 0);
    assert(spec_pte_at(m2.mem, loc, idx) == 0);
    assert(!spec_pte_present(0)) by (bit_vector);
}

/// TLB hit reproducibility: when a translation misses, walks successfully
/// and caches its frame, a second translation of any address with the same
/// virtual page number hits the TLB, returns the same frame combined with
/// its own page offset, and bumps the hit counter, not the miss counter.
pub proof fn lemma_tlb_hit_after_fill(m: MachineView, va: u64, va2: u64)
    requires
        m.wf(),
        m.stats.tlb.hit < usize::MAX,
        spec_page_number(va2) == spec_page_number(va),
        !spec_tlb_hits(m, va),
        spec_walk(m.mem, m.cr3, va) is Some,
    ensures
        ({
            let (m1, r1) = spec_translate(m, va);
            let (m2, r2) = spec_translate(m1, va2);
            &&& r1 is Some
            &&& spec_tlb_hits(m1, va2)
            &&& r2 == Some(spec_with_offset(r1->Some_0, spec_page_offset(va2)))
            &&& m2.stats.tlb.hit == m1.stats.tlb.hit + 1
            &&& m2.stats.tlb.miss == m1.stats.tlb.miss
        }),
{
    lemma_va_set_in_range(va);
    let si = spec_va_set(va);
    let tag = spec_va_tag(va);
    let set = m.tlb[si];
    let frame = spec_walk(m.mem, m.cr3, va)->Some_0;
    lemma_tlb_hit_range(set, tag, 0);
    assert(tlb_hit_way(set, tag) == 4);
    lemma_tlb_miss_no_match(set, tag, 0);
    lemma_tlb_victim_in_range(set);
    let k = tlb_victim_way(set);
    let s2 = tlb_set_insert(set, tag, frame);
    assert(s2[k].valid && s2[k].tag == tag);
    assert(forall|j: int|
        0 <= j < k ==> !((#[trigger] s2[j]).valid && s2[j].tag == tag));
    lemma_tlb_hit_from_eq(s2, tag, 0, k);
    let (m1, r1) = spec_translate(m, va);
    assert(m1.tlb[si] == s2);
    let o1 = spec_page_offset(va);
    let o2 = spec_page_offset(va2);
    assert(((frame & 0xFFFF_FFFF_FFFF_F000) | (o1 & 4095)) & 0xFFFF_FFFF_FFFF_F000 | (o2 & 4095)
        == (frame & 0xFFFF_FFFF_FFFF_F000) | (o2 & 4095)) by (bit_vector);
}

/// Table edits are local: a map or unmap of one slot neither moves memory's
/// bounds nor changes any entry whose word does not overlap the edited one.
/// In particular a sibling slot of the same table keeps its mapping.
pub proof fn lemma_table_edit_keeps_other_entries(
    m: MachineView,
    loc: u64,
    idx: u64,
    target: u64,
    loc2: u64,
    idx2: u64,
)
    requires
        idx < 512,
        idx2 < 512,
        loc + 4096 <= m.mem.len(),
        loc2 + 4096 <= m.mem.len(),
        loc + 8 * idx + 8 <= loc2 + 8 * idx2 || loc2 + 8 * idx2 + 8 <= loc + 8 * idx,
    ensures
        crate::model::spec_map_page(m, loc, idx, target).mem.len() == m.mem.len(),
        crate::model::spec_unmap_page(m, loc, idx).mem.len() == m.mem.len(),
        spec_pte_at(crate::model::spec_map_page(m, loc, idx, target).mem, loc2, idx2)
            == spec_pte_at(m.mem, loc2, idx2),
        spec_pte_at(crate::model::spec_unmap_page(m, loc, idx).mem, loc2, idx2) == spec_pte_at(
            m.mem,
            loc2,
            idx2,
        ),
{
    let word = loc + 8 * idx;
    let other = loc2 + 8 * idx2;
    crate::memory::lemma_store_u64_len(m.mem, word as int, crate::page::spec_pte_present_bits(target));
    crate::memory::lemma_store_u64_len(m.mem, word as int, 0);
    crate::memory::lemma_store_u64_load_other(
        m.mem,
        word as int,
        crate::page::spec_pte_present_bits(target),
        other as int,
    );
    crate::memory::lemma_store_u64_load_other(m.mem, word as int, 0, other as int);
}

/// A read that misses the cache returns the byte physical memory really
/// holds at that address: the loaded line starts at the address with its
/// low 6 bits cleared, and the requested byte sits at the offset inside it.
pub proof fn lemma_read_phys_miss_reads_memory(m: MachineView, pa: u64)
    requires
        m.wf(),
        crate::model::spec_read_phys_enabled(m, pa),
        !crate::model::spec_cache_hits(m, pa),
    ensures
        spec_read_phys(m, pa).1 == m.mem[pa as int],
{
    let block = crate::cache::spec_block_base(pa);
    let off = crate::cache::spec_cache_offset(pa);
    assert((pa & 0xFFFF_FFFF_FFFF_FFC0) + ((pa & 4095) & 63) == pa && ((pa & 4095) & 63) < 64)
        by (bit_vector);
    assert(m.mem.subrange(block as int, block + 64)[off as int] == m.mem[pa as int]);
}

/// Line reproducibility: when a read misses and loads its line, a second
/// read of any address in the same block hits the cache, returns the byte
/// memory held at load time, and bumps the hit counter, not the miss
/// counter.
pub proof fn lemma_cache_hit_after_fill(m: MachineView, pa: u64, pa2: u64)
    requires
        m.wf(),
        m.stats.l1.hit < usize::MAX,
        crate::cache::spec_block_base(pa2) == crate::cache::spec_block_base(pa),
        !crate::model::spec_cache_hits(m, pa),
        crate::model::spec_read_phys_enabled(m, pa),
    ensures
        ({
            let (m1, b1) = spec_read_phys(m, pa);
            let (m2, b2) = spec_read_phys(m1, pa2);
            &&& crate::model::spec_cache_hits(m1, pa2)
            &&& b2 == m.mem[pa2 as int]
            &&& m2.stats.l1.hit == m1.stats.l1.hit + 1
            &&& m2.stats.l1.miss == m1.stats.l1.miss
        }),
{
    lemma_cache_index_in_range(pa);
    let si = crate::cache::spec_cache_index(pa) as int;
    let tag = crate::cache::spec_cache_tag(pa);
    let set = m.cache[si];
    let block = crate::cache::spec_block_base(pa);
    assert((pa & 0xFFFF_FFFF_FFFF_FFC0) == (pa2 & 0xFFFF_FFFF_FFFF_FFC0) ==> ((pa & 4095) >> 6)
        & 63 == ((pa2 & 4095) >> 6) & 63 && pa >> 12 == pa2 >> 12) by (bit_vector);
    crate::cache::lemma_cache_hit_range(set, tag, 0);
    assert(cache_hit_way(set, tag) == 8);
    crate::cache::lemma_cache_miss_no_match(set, tag, 0);
    lemma_cache_victim_range(set, 8);
    let k = crate::cache::cache_victim_way(set);
    let line = m.mem.subrange(block as int, block + 64);
    let s2 = set.update(
        k,
        crate::cache::CacheEntryView { valid: true, tag, line },
    );
    assert(s2[k].valid && s2[k].tag == tag);
    assert(forall|j: int| 0 <= j < k ==> !((#[trigger] s2[j]).valid && s2[j].tag == tag));
    crate::cache::lemma_cache_hit_from_eq(s2, tag, 0, k);
    let (m1, b1) = spec_read_phys(m, pa);
    assert(m1.cache[si] == s2);
    let off2 = crate::cache::spec_cache_offset(pa2);
    assert((pa & 0xFFFF_FFFF_FFFF_FFC0) == (pa2 & 0xFFFF_FFFF_FFFF_FFC0) ==> (pa2
        & 0xFFFF_FFFF_FFFF_FFC0) + ((pa2 & 4095) & 63) == pa2 && ((pa2 & 4095) & 63) < 64)
        by (bit_vector);
    assert(line[off2 as int] == m.mem[pa2 as int]);
}

/// The frame a successful walk returns is page-aligned: the last level's
/// entry is decoded with its low 12 bits cleared.
pub proof fn lemma_walk_result_aligned(mem: Seq<u8>, cr3: u64, va: u64)
    requires
        spec_walk(mem, cr3, va) is Some,
    ensures
        spec_page_offset(spec_walk(mem, cr3, va)->Some_0) == 0,
{
    let base4 = spec_walk3(mem, cr3, va)->Some_0;
    let p4 = spec_pte_at(mem, base4, crate::addr::spec_vpn4(va));
    assert(spec_walk(mem, cr3, va)->Some_0 == (p4 & 0xFFFF_FFFF_FFFF_F000));
    assert((p4 & 0xFFFF_FFFF_FFFF_F000) & 4095 == 0) by (bit_vector);
}

/// The action sequence of an access pattern: `n` reads spaced `stride`
/// bytes apart, starting at `base`.
pub open spec fn spec_pattern_reads(base: u64, stride: u64, n: int) -> Seq<Action> {
    Seq::new(n as nat, |k: int| Action::Read(crate::addr::VirtAddr((base + stride * k) as u64)))
}

/// The line index inside the page that read `k` of the pattern touches.
pub open spec fn spec_pattern_line(stride: u64, k: int) -> u64 {
    ((stride * k) as u64) >> 6
}

/// How many distinct lines the first `k` reads of the pattern touch: the
/// line indices are nondecreasing, so it is the last one plus one.
pub open spec fn spec_pattern_blocks(stride: u64, k: int) -> int {
    if k <= 0 {
        0
    } else {
        spec_pattern_line(stride, k - 1) as int + 1
    }
}

/// The premises of the locality and stride scenarios: a fresh machine (all
/// counters zero, empty TLB set and cache), a page-aligned base address
/// whose whole page is mapped (the walk succeeds and stays inside memory,
/// and the target frame's page lies inside memory too), and a pattern that
/// stays within that one page.
pub open spec fn spec_pattern_pre(
    m: MachineView,
    base: u64,
    frame: u64,
    stride: u64,
    n: int,
) -> bool {
    &&& m.wf()
    &&& m.cache == crate::cache::spec_empty_cache()
    &&& m.tlb[spec_va_set(base)] == crate::tlb::spec_empty_tlb_set()
    &&& m.stats == crate::stat::spec_stats_zero()
    &&& spec_page_offset(base) == 0
    &&& base + 4096 <= u64::MAX
    &&& spec_walk(m.mem, m.cr3, base) == Some(frame)
    &&& crate::model::spec_walk_bounded(m.mem, m.cr3, base)
    &&& frame + 4096 <= m.mem.len()
    &&& m.mem.len() <= usize::MAX
    &&& (stride == 1 || stride == 64)
    &&& 1 <= n <= 255
    &&& stride * n <= 4096
}

/// The one TLB set the pattern touches, after `k` reads: the translation
/// sits in way 0 with its access counter at `k`.
pub open spec fn spec_pattern_tlb_set(tag: u64, frame: u64, k: int) -> Seq<TlbEntry> {
    Seq::new(
        4,
        |w: int|
            if w == 0 {
                TlbEntry { valid: true, access: k as u8, tag, addr: crate::addr::PhysAddr(frame) }
            } else {
                crate::tlb::spec_tlb_entry_invalid()
            },
    )
}

/// A cache set holding line `ci` of the pattern's page in way 7 (the way a
/// first insert into an empty set picks) and nothing else.
pub open spec fn spec_pattern_cache_set(
    mem: Seq<u8>,
    frame: u64,
    ci: int,
) -> Seq<crate::cache::CacheEntryView> {
    Seq::new(
        8,
        |w: int|
            if w == 7 {
                crate::cache::CacheEntryView {
                    valid: true,
                    tag: spec_page_number(frame),
                    line: mem.subrange(frame + 64 * ci, frame + 64 * ci + 64),
                }
            } else {
                crate::cache::spec_cache_entry_empty()
            },
    )
}

/// The machine after the first `k` reads of the pattern: one TLB entry with
/// counter `k`, the first `spec_pattern_blocks` lines of the page cached,
/// and the counters that many hits and misses.
pub open spec fn spec_pattern_state(
    m: MachineView,
    base: u64,
    frame: u64,
    stride: u64,
    k: int,
) -> MachineView {
    if k <= 0 {
        m
    } else {
        MachineView {
            tlb: m.tlb.update(
                spec_va_set(base),
                spec_pattern_tlb_set(spec_va_tag(base), frame, k),
            ),
            cache: Seq::new(
                64,
                |ci: int|
                    if ci < spec_pattern_blocks(stride, k) {
                        spec_pattern_cache_set(m.mem, frame, ci)
                    } else {
                        crate::cache::spec_empty_cache_set()
                    },
            ),
            stats: crate::stat::Stats {
                page_faults: 0,
                tlb: crate::stat::CacheStats { hit: (k - 1) as usize, miss: 1 },
                l1: crate::stat::CacheStats {
                    hit: (k - spec_pattern_blocks(stride, k)) as usize,
                    miss: spec_pattern_blocks(stride, k) as usize,
                },
            },
            ..m
        }
    }
}

/// The first read of the pattern: a TLB miss, a successful walk, a TLB
/// insert into way 0 of the empty set, and a line load into way 7 of the
/// empty cache set.
proof fn lemma_pattern_first_read(m: MachineView, base: u64, frame: u64, stride: u64, n: int)
    requires
        spec_pattern_pre(m, base, frame, stride, n),
    ensures
        crate::model::spec_read_enabled(m, base),
        crate::model::spec_read(m, base).1 is Some,
        crate::model::spec_read(m, base).0 == spec_pattern_state(m, base, frame, stride, 1),
{
    lemma_va_set_in_range(base);
    let si = spec_va_set(base);
    let tag = spec_va_tag(base);
    let set = m.tlb[si];
    assert(set == crate::tlb::spec_empty_tlb_set());
    assert(forall|j: int| 0 <= j < 4 ==> !(#[trigger] set[j]).valid);
    crate::tlb::lemma_tlb_no_match_misses(set, tag, 0);
    assert(!spec_tlb_hits(m, base));
    lemma_walk_result_aligned(m.mem, m.cr3, base);
    assert(frame & 4095 == 0);
    // the insert picks way 0, the first invalid way of the empty set
    assert(crate::tlb::tlb_first_invalid_from(set, 0) == 0);
    let s1 = tlb_set_insert(set, tag, frame);
    assert(s1 =~= spec_pattern_tlb_set(tag, frame, 1));
    let (m1, t) = spec_translate(m, base);
    assert(t == Some(spec_with_offset(frame, spec_page_offset(base))));
    assert((frame & 0xFFFF_FFFF_FFFF_F000) | (0u64 & 4095) == frame) by (bit_vector)
        requires
            frame & 4095 == 0,
    ;
    assert(t == Some(frame));
    assert(m1.tlb =~~= spec_pattern_state(m, base, frame, stride, 1).tlb);
    // the cache side: set 0, a miss, way 7 the victim
    assert((frame & 4095) == 0 ==> (((frame & 4095) >> 6) & 63) == 0 && ((frame & 4095) & 63) == 0
        && frame >> 12 == frame >> 12 && (frame & 0xFFFF_FFFF_FFFF_FFC0) == frame)
        by (bit_vector);
    let cset = m1.cache[0];
    assert(cset == crate::cache::spec_empty_cache_set());
    assert(forall|j: int| 0 <= j < 8 ==> !(#[trigger] cset[j]).valid);
    crate::cache::lemma_cache_no_match_misses(cset, crate::cache::spec_cache_tag(frame), 0);
    assert(0u64 >> 6 == 0) by (bit_vector);
    assert(crate::cache::cache_victim_upto(cset, 8) == 7);
    let (m2, b) = spec_read_phys(m1, frame);
    assert(m2.cache =~~= spec_pattern_state(m, base, frame, stride, 1).cache);
    assert(crate::model::spec_read(m, base).0 =~= spec_pattern_state(m, base, frame, stride, 1));
}

/// Every later read of the pattern: the TLB answers from way 0, and the
/// cache either already holds the read's line in way 7 of its set or loads
/// it there, depending on whether the line index moved on.
proof fn lemma_pattern_later_read(
    m: MachineView,
    base: u64,
    frame: u64,
    stride: u64,
    n: int,
    k: int,
)
    requires
        spec_pattern_pre(m, base, frame, stride, n),
        1 <= k < n,
    ensures
        ({
            let mk = spec_pattern_state(m, base, frame, stride, k);
            let va = (base + stride * k) as u64;
            &&& crate::model::spec_read_enabled(mk, va)
            &&& crate::model::spec_read(mk, va).1 is Some
            &&& crate::model::spec_read(mk, va).0 == spec_pattern_state(m, base, frame, stride, k + 1)
        }),
{
    let mk = spec_pattern_state(m, base, frame, stride, k);
    lemma_va_set_in_range(base);
    lemma_walk_result_aligned(m.mem, m.cr3, base);
    let si = spec_va_set(base);
    let tag = spec_va_tag(base);
    // the offsets of this and the previous read, exactly
    assert(stride * k + stride <= stride * n && 0 <= stride * (k - 1)) by {
        if stride == 1 {
        } else {
        }
    }
    let x: u64 = (stride * k) as u64;
    let xp: u64 = (stride * (k - 1)) as u64;
    assert(x == stride * k && xp == stride * (k - 1) && xp + stride == x);
    let va: u64 = (base + stride * k) as u64;
    assert(va == base + x);
    // the read stays on the pattern's page
    assert(((base + x) as u64) >> 12 == base >> 12 && ((base + x) as u64) & 4095 == x)
        by (bit_vector)
        requires
            base & 4095 == 0 && x < 4096 && base + x <= u64::MAX,
    ;
    assert(spec_va_set(va) == si && spec_va_tag(va) == tag);
    assert(spec_page_offset(va) == x);
    // the TLB answers from way 0
    let set = mk.tlb[si];
    assert(set == spec_pattern_tlb_set(tag, frame, k));
    assert(set[0].valid && set[0].tag == tag);
    assert(tlb_hit_way(set, tag) == 0);
    assert(spec_tlb_hits(mk, va));
    let bumped = crate::tlb::spec_mark_accessed(set[0]);
    assert(bumped == TlbEntry {
        valid: true,
        access: (k + 1) as u8,
        tag,
        addr: crate::addr::PhysAddr(frame),
    });
    let (m1, t) = spec_translate(mk, va);
    assert(m1.tlb =~~= spec_pattern_state(m, base, frame, stride, k + 1).tlb);
    assert(m1.cache == mk.cache && m1.mem == m.mem);
    // the physical address and its cache coordinates
    assert({
        &&& ((frame & 0xFFFF_FFFF_FFFF_F000) | (x & 4095)) == frame + x
        &&& ((((frame + x) as u64) & 4095) >> 6) & 63 == x >> 6
        &&& ((frame + x) as u64) >> 12 == frame >> 12
        &&& ((frame + x) as u64) & 0xFFFF_FFFF_FFFF_FFC0 == frame + 64 * (x >> 6)
        &&& x >> 6 < 64
    })
        by (bit_vector)
        requires
            frame & 4095 == 0 && x < 4096 && frame + 4096 <= u64::MAX,
    ;
    let pa: u64 = (frame + x) as u64;
    assert(t == Some(pa));
    let ci = (x >> 6) as int;
    assert(crate::cache::spec_cache_index(pa) == x >> 6);
    assert(crate::cache::spec_cache_tag(pa) == spec_page_number(frame));
    // the line index moves by at most one line per read
    assert(xp >> 6 <= x >> 6 && x >> 6 <= (xp >> 6) + 1) by (bit_vector)
        requires
            (stride == 1 || stride == 64) && x == xp + stride && x < 4096,
    ;
    let blocks = spec_pattern_blocks(stride, k);
    assert(blocks == (xp >> 6) as int + 1);
    assert(spec_pattern_blocks(stride, k + 1) == ci + 1);
    // no more lines than reads so far: the counters never go negative
    if stride == 1 {
        assert(xp >> 6 <= xp) by (bit_vector);
    } else {
        let y: u64 = (k - 1) as u64;
        assert(xp >> 6 == y) by (bit_vector)
            requires
                xp == 64 * y && y < 64,
        ;
    }
    assert(blocks <= k);
    let cset = m1.cache[ci];
    let ctag = spec_page_number(frame);
    if ci < blocks {
        // this line is already cached: a hit in way 7
        assert(x >> 6 == xp >> 6);
        assert(cset == spec_pattern_cache_set(m.mem, frame, ci));
        assert(cset[7].valid && cset[7].tag == ctag);
        assert(forall|j: int| 0 <= j < 7 ==> !((#[trigger] cset[j]).valid && cset[j].tag == ctag));
        crate::cache::lemma_cache_hit_from_eq(cset, ctag, 0, 7);
        let (m2, b) = spec_read_phys(m1, pa);
        assert(m2.cache == m1.cache);
        assert(m2 =~~= spec_pattern_state(m, base, frame, stride, k + 1));
    } else {
        // a fresh line: a miss, loaded into way 7 of the empty set
        assert(ci == blocks);
        assert(cset == crate::cache::spec_empty_cache_set());
        assert(forall|j: int| 0 <= j < 8 ==> !(#[trigger] cset[j]).valid);
        crate::cache::lemma_cache_no_match_misses(cset, ctag, 0);
        assert(crate::cache::cache_victim_upto(cset, 8) == 7);
        assert(crate::cache::spec_block_base(pa) == frame + 64 * ci);
        let loaded = crate::cache::CacheEntryView {
            valid: true,
            tag: ctag,
            line: m.mem.subrange(frame + 64 * ci, frame + 64 * ci + 64),
        };
        assert(cset.update(7, loaded) =~= spec_pattern_cache_set(m.mem, frame, ci));
        let (m2, b) = spec_read_phys(m1, pa);
        assert(m2.cache =~~= spec_pattern_state(m, base, frame, stride, k + 1).cache);
        assert(m2 =~~= spec_pattern_state(m, base, frame, stride, k + 1));
    }
}

/// Read `k` of the pattern carries state `k` to state `k + 1` and succeeds.
proof fn lemma_pattern_step(m: MachineView, base: u64, frame: u64, stride: u64, n: int, k: int)
    requires
        spec_pattern_pre(m, base, frame, stride, n),
        0 <= k < n,
    ensures
        ({
            let mk = spec_pattern_state(m, base, frame, stride, k);
            let va = (base + stride * k) as u64;
            &&& crate::model::spec_read_enabled(mk, va)
            &&& crate::model::spec_read(mk, va).1 is Some
            &&& crate::model::spec_read(mk, va).0 == spec_pattern_state(m, base, frame, stride, k + 1)
        }),
{
    if k == 0 {
        assert((base + stride * 0) as u64 == base);
        lemma_pattern_first_read(m, base, frame, stride, n);
    } else {
        lemma_pattern_later_read(m, base, frame, stride, n, k);
    }
}

/// The remaining reads of the pattern, from state `k` on, may all run and
/// end in state `n`.
proof fn lemma_pattern_tail(m: MachineView, base: u64, frame: u64, stride: u64, n: int, k: int)
    requires
        spec_pattern_pre(m, base, frame, stride, n),
        0 <= k <= n,
    ensures
        crate::model::spec_run_enabled(
            spec_pattern_state(m, base, frame, stride, k),
            spec_pattern_reads(base, stride, n).skip(k),
        ),
        spec_run(
            spec_pattern_state(m, base, frame, stride, k),
            spec_pattern_reads(base, stride, n).skip(k),
        ) == spec_pattern_state(m, base, frame, stride, n),
    decreases n - k,
{
    let acts = spec_pattern_reads(base, stride, n).skip(k);
    if k < n {
        let va = (base + stride * k) as u64;
        assert(acts[0] == Action::Read(crate::addr::VirtAddr(va)));
        lemma_pattern_step(m, base, frame, stride, n, k);
        assert(acts.skip(1) =~= spec_pattern_reads(base, stride, n).skip(k + 1));
        lemma_pattern_tail(m, base, frame, stride, n, k + 1);
    } else {
        assert(acts =~= Seq::<Action>::empty());
    }
}

/// The counting law behind the locality and stride scenarios: a pattern of
/// `n` reads spaced `stride` bytes apart inside one freshly mapped page may
/// run, misses the TLB exactly once, misses the cache once per distinct
/// line, and hits everywhere else; no read faults.
pub proof fn lemma_pattern_counts(m: MachineView, base: u64, frame: u64, stride: u64, n: int)
    requires
        spec_pattern_pre(m, base, frame, stride, n),
    ensures
        crate::model::spec_run_enabled(m, spec_pattern_reads(base, stride, n)),
        ({
            let st = spec_run(m, spec_pattern_reads(base, stride, n)).stats;
            &&& st.tlb.miss == 1
            &&& st.tlb.hit == n - 1
            &&& st.l1.miss == spec_pattern_blocks(stride, n)
            &&& st.l1.hit == n - spec_pattern_blocks(stride, n)
            &&& st.page_faults == 0
        }),
{
    lemma_pattern_tail(m, base, frame, stride, n, 0);
    assert(spec_pattern_reads(base, stride, n).skip(0) =~= spec_pattern_reads(base, stride, n));
    // at most one distinct line per read, so the counters are in range
    let xp: u64 = (stride * (n - 1)) as u64;
    if stride == 1 {
        assert(xp >> 6 <= xp) by (bit_vector);
    } else {
        let y: u64 = (n - 1) as u64;
        assert(xp >> 6 == y) by (bit_vector)
            requires
                xp == 64 * y && y < 64,
        ;
    }
    assert(spec_pattern_blocks(stride, n) <= n);
}

/// Locality scenario: 100 consecutive byte reads from a page-aligned,
/// freshly mapped address make exactly 1 TLB miss and 2 line loads; the
/// other 99 translations and 98 byte reads hit.
pub proof fn lemma_locality_scenario(m: MachineView, base: u64, frame: u64)
    requires
        spec_pattern_pre(m, base, frame, 1, 100),
    ensures
        crate::model::spec_run_enabled(m, spec_pattern_reads(base, 1, 100)),
        ({
            let st = spec_run(m, spec_pattern_reads(base, 1, 100)).stats;
            &&& st.tlb.miss == 1
            &&& st.tlb.hit == 99
            &&& st.l1.miss == 2
            &&& st.l1.hit == 98
            &&& st.page_faults == 0
        }),
{
    lemma_pattern_counts(m, base, frame, 1, 100);
    assert(99u64 >> 6 == 1) by (bit_vector);
}

/// Stride scenario: reads spaced one line apart inside one page miss the
/// cache on every single access — each read touches a fresh line — while
/// the TLB misses only once.
pub proof fn lemma_stride_scenario(m: MachineView, base: u64, frame: u64, n: int)
    requires
        spec_pattern_pre(m, base, frame, 64, n),
    ensures
        crate::model::spec_run_enabled(m, spec_pattern_reads(base, 64, n)),
        ({
            let st = spec_run(m, spec_pattern_reads(base, 64, n)).stats;
            &&& st.tlb.miss == 1
            &&& st.tlb.hit == n - 1
            &&& st.l1.miss == n
            &&& st.l1.hit == 0
            &&& st.page_faults == 0
        }),
{
    lemma_pattern_counts(m, base, frame, 64, n);
    let y: u64 = (n - 1) as u64;
    let z: u64 = (64 * (n - 1)) as u64;
    assert(z >> 6 == y) by (bit_vector)
        requires
            z == 64 * y && y < 64,
    ;
}

/// Determinism: a run is a pure function of the starting state and the
/// action sequence, so two machines that start equal and replay the same
/// actions end with equal TLB and cache contents, equal memory and equal
/// counters. Every executable operation's contract equates its effect with
/// the model's step functions, which carries this law to executions.
pub proof fn lemma_replay_deterministic(m1: MachineView, m2: MachineView, actions: Seq<Action>)
    requires
        m1 == m2,
    ensures
        spec_run(m1, actions) == spec_run(m2, actions),
{
}


} // verus!
