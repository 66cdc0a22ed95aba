//! A simulator for the address-translation path of a CPU memory-management
//! unit: a 4-level forward-mapped page table held in a flat physical memory,
//! a set-associative translation lookaside buffer (TLB), and a set-associative
//! L1 data cache. The `Machine` type owns all of them and exposes the
//! translate / read / map / unmap / invalidate operations.
//!
//! Every operation's contract equates its effect with a step function of the
//! model in `model`; the laws that follow from those contracts — containment,
//! the unmap effect, TLB hit reproducibility and determinism of replay — are
//! proved in `laws`.

pub mod addr;
pub mod cache;
pub mod laws;
pub mod log;
pub mod machine;
pub mod memory;
pub mod model;
pub mod page;
pub mod stat;
pub mod tlb;
