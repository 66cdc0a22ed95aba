//! Scripted runs: determinism of replay, and the action dispatcher.

use mmu_sim::addr::{PhysAddr, VirtAddr};
use mmu_sim::machine::Machine;
use mmu_sim::model::Action;

const CR3: u64 = 100 * 4096;
const P1: u64 = 101 * 4096;
const P2: u64 = 102 * 4096;
const P3: u64 = 103 * 4096;
const BASE: u64 = 0x50000000000;

fn script() -> Vec<Action> {
    let mut actions: Vec<Action> = vec![
        Action::MapPage {
            table: PhysAddr::from_bits(CR3),
            index: 10,
            target: PhysAddr::from_bits(P1),
        },
        Action::MapPage {
            table: PhysAddr::from_bits(P1),
            index: 0,
            target: PhysAddr::from_bits(P2),
        },
        Action::MapPage {
            table: PhysAddr::from_bits(P2),
            index: 0,
            target: PhysAddr::from_bits(P3),
        },
        Action::MapPage {
            table: PhysAddr::from_bits(P2),
            index: 1,
            target: PhysAddr::from_bits(P3),
        },
    ];
    let mut i = 0;
    while i < 10 {
        actions.push(Action::MapPage {
            table: PhysAddr::from_bits(P3),
            index: i,
            target: PhysAddr::from_bits((104 + i as u64) * 4096),
        });
        i += 1;
    }
    actions.push(Action::InvalidateTlb);
    actions.push(Action::Read(VirtAddr::from_bits(BASE)));
    actions.push(Action::Read(VirtAddr::from_bits(BASE + 0x200)));
    actions.push(Action::Read(VirtAddr::from_bits(BASE + 4096)));
    actions.push(Action::Read(VirtAddr::from_bits(11 << 39)));
    actions.push(Action::UnmapPage { table: PhysAddr::from_bits(P3), index: 0 });
    actions.push(Action::InvalidateTlb);
    actions.push(Action::Read(VirtAddr::from_bits(BASE)));
    actions
}

fn machines_agree(a: &Machine, b: &Machine) {
    assert_eq!(a.stats, b.stats);
    assert_eq!(a.cr3, b.cr3);
    assert_eq!(a.memory.bytes, b.memory.bytes);
    let mut s = 0;
    while s < 128 {
        let mut w = 0;
        while w < 4 {
            assert_eq!(a.tlb.sets[s].entries[w], b.tlb.sets[s].entries[w]);
            w += 1;
        }
        s += 1;
    }
    let mut s = 0;
    while s < 64 {
        let mut w = 0;
        while w < 8 {
            let x = &a.cache.sets[s].entries[w];
            let y = &b.cache.sets[s].entries[w];
            assert_eq!(x.valid, y.valid);
            assert_eq!(x.tag, y.tag);
            assert_eq!(x.line, y.line);
            w += 1;
        }
        s += 1;
    }
}

#[test]
fn replay_is_deterministic() {
    let actions = script();
    let mut a = Machine::new(PhysAddr::from_bits(CR3), 1);
    let mut b = Machine::new(PhysAddr::from_bits(CR3), 1);
    a.run_many(&actions);
    b.run_many(&actions);
    machines_agree(&a, &b);
    assert_eq!(a.stats.tlb.miss, 4);
    assert_eq!(a.stats.tlb.hit, 1);
    assert_eq!(a.stats.page_faults, 2);
}

#[test]
fn run_many_equals_one_by_one() {
    let actions = script();
    let mut a = Machine::new(PhysAddr::from_bits(CR3), 1);
    let mut b = Machine::new(PhysAddr::from_bits(CR3), 1);
    a.run_many(&actions);
    for action in actions.iter() {
        b.run_one(*action);
    }
    machines_agree(&a, &b);
}

#[test]
fn dump_stats_action_resets_counters() {
    let mut m = Machine::new(PhysAddr::from_bits(CR3), 1);
    m.run_many(&script());
    assert!(m.stats.tlb.miss > 0);
    m.run_one(Action::DumpStats);
    assert_eq!(m.stats.tlb.miss, 0);
    assert_eq!(m.stats.tlb.hit, 0);
    assert_eq!(m.stats.l1.miss, 0);
    assert_eq!(m.stats.l1.hit, 0);
    assert_eq!(m.stats.page_faults, 0);
}
