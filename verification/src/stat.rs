//! Hit/miss/fault counters. Pure bookkeeping: the counters never feed back
//! into translation decisions, but the scenario properties are stated over
//! them, so they are kept exact.

use vstd::prelude::*;

verus! {

/// Hits and misses of one associative structure.
#[derive(Clone, Copy, PartialEq, Eq, Structural, Debug)]
pub struct CacheStats {
    pub hit: usize,
    pub miss: usize,
}

impl CacheStats {
    pub fn new() -> (r: Self)
        ensures
            r.hit == 0,
            r.miss == 0,
    {
        CacheStats { hit: 0, miss: 0 }
    }

    pub fn hit(&mut self)
        requires
            old(self).hit < usize::MAX,
        ensures
            final(self).hit == old(self).hit + 1,
            final(self).miss == old(self).miss,
    {
        self.hit = self.hit + 1;
    }

    pub fn miss(&mut self)
        requires
            old(self).miss < usize::MAX,
        ensures
            final(self).miss == old(self).miss + 1,
            final(self).hit == old(self).hit,
    {
        self.miss = self.miss + 1;
    }
}

/// All the counters of one machine.
#[derive(Clone, Copy, PartialEq, Eq, Structural, Debug)]
pub struct Stats {
    pub page_faults: usize,
    pub l1: CacheStats,
    pub tlb: CacheStats,
}

impl Stats {
    pub fn new() -> (r: Self)
        ensures
            r == spec_stats_zero(),
    {
        Stats { page_faults: 0, l1: CacheStats { hit: 0, miss: 0 }, tlb: CacheStats { hit: 0, miss: 0 } }
    }

    pub fn reset(&mut self)
        ensures
            *final(self) == spec_stats_zero(),
    {
        self.page_faults = 0;
        self.l1 = CacheStats { hit: 0, miss: 0 };
        self.tlb = CacheStats { hit: 0, miss: 0 };
    }
}

/// The value of freshly reset counters.
pub open spec fn spec_stats_zero() -> Stats {
    Stats {
        page_faults: 0,
        l1: CacheStats { hit: 0, miss: 0 },
        tlb: CacheStats { hit: 0, miss: 0 },
    }
}

} // verus!
