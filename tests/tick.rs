use block_automata::{
    Automata, LifeRule, NeighborhoodKind, Point, Remainder, Schedule, Size, TransitionRule,
    WireWorldRule,
};

fn grid(x: u8, y: u8, z: u8) -> Automata {
    Automata::new(Size::new(x, y, z).unwrap()).unwrap()
}

fn all_workers(workers: usize) -> Schedule {
    Schedule { workers, remainder: Remainder::LastWorker }
}

/// Conway's Life on a grid one cell thick in y, with the Moore topology.
/// Wrapping on the single y layer reaches each in-plane neighbor three times
/// and the cell itself twice, so "2 or 3 neighbors survive, 3 are born"
/// reads as counts 8..=11 for a live cell and exactly 9 for an empty one.
fn planar_life() -> LifeRule {
    LifeRule { survive_min: 8, survive_max: 11, birth_min: 9, birth_max: 9, states: 2 }
}

fn pattern(g: &mut Automata, seed: u32) {
    let mut v = seed;
    for i in 0..g.len() {
        v = v.wrapping_mul(1_103_515_245).wrapping_add(12_345);
        g.set(i, ((v >> 16) % 2) as u8);
    }
}

fn live_points(g: &Automata) -> Vec<Point> {
    g.cells().into_iter().filter(|(_, s)| *s != 0).map(|(p, _)| p).collect()
}

#[test]
fn life_rule_transitions() {
    let g = grid(3, 3, 3);
    let n = g.moore_neighborhood(Point::new(1, 1, 1));
    let conway = LifeRule { survive_min: 2, survive_max: 3, birth_min: 3, birth_max: 3, states: 2 };
    assert_eq!(conway.next(1, &n), 0);
    assert_eq!(conway.next(0, &n), 0);
    let decaying = LifeRule { survive_min: 0, survive_max: 0, birth_min: 0, birth_max: 0, states: 5 };
    assert_eq!(decaying.next(0, &n), 4);
    assert_eq!(decaying.next(1, &n), 1);
    assert_eq!(decaying.next(4, &n), 3);
    assert_eq!(decaying.next(2, &n), 1);
}

#[test]
fn wire_world_transitions() {
    let mut g = grid(3, 3, 3);
    g.set_at(Point::new(0, 1, 1), 2);
    let one_head = g.moore_neighborhood(Point::new(1, 1, 1));
    g.set_at(Point::new(2, 1, 1), 2);
    g.set_at(Point::new(1, 0, 1), 2);
    let three_heads = g.moore_neighborhood(Point::new(1, 1, 1));
    let r = WireWorldRule;
    assert_eq!(r.next(1, &one_head), 2);
    assert_eq!(r.next(1, &three_heads), 1);
    assert_eq!(r.next(2, &one_head), 3);
    assert_eq!(r.next(3, &one_head), 1);
    assert_eq!(r.next(0, &one_head), 0);
}

#[test]
fn blinker_oscillates_with_period_two() {
    let mut g = grid(5, 1, 5);
    for x in 1..=3 {
        g.set_at(Point::new(x, 0, 2), 1);
    }
    let horizontal = live_points(&g);
    let rule = planar_life();
    g.tick(&rule, NeighborhoodKind::Moore, all_workers(4));
    let vertical = live_points(&g);
    assert_eq!(vertical, vec![Point::new(2, 0, 1), Point::new(2, 0, 2), Point::new(2, 0, 3)]);
    g.tick(&rule, NeighborhoodKind::Moore, all_workers(4));
    assert_eq!(live_points(&g), horizontal);
    g.tick(&rule, NeighborhoodKind::Moore, all_workers(4));
    assert_eq!(live_points(&g), vertical);
}

#[test]
fn one_worker_and_eight_workers_agree() {
    let rules = [
        LifeRule { survive_min: 4, survive_max: 5, birth_min: 5, birth_max: 5, states: 2 },
        LifeRule { survive_min: 2, survive_max: 6, birth_min: 3, birth_max: 4, states: 4 },
    ];
    for (seed, rule) in rules.iter().enumerate() {
        for kind in [NeighborhoodKind::Moore, NeighborhoodKind::VonNeumann] {
            let mut a = grid(6, 5, 7);
            pattern(&mut a, seed as u32 + 1);
            let mut b = a.clone();
            a.tick(rule, kind, all_workers(1));
            b.tick(rule, kind, all_workers(8));
            assert_eq!(a.states(), b.states());
        }
    }
}

#[test]
fn rule_sees_only_the_previous_generation() {
    // The head at index 0 excites its two row neighbors (the row wraps). An
    // in-place update in index order would let the new head at index 1
    // excite index 2 within the same tick.
    let mut g = grid(6, 1, 1);
    g.set(0, 2);
    for i in 1..6 {
        g.set(i, 1);
    }
    g.tick(&WireWorldRule, NeighborhoodKind::VonNeumann, all_workers(1));
    assert_eq!(g.states(), vec![3, 2, 1, 1, 1, 2]);
}

#[test]
fn stabilized_grid_has_empty_diff() {
    // A lone head on a short wire burns out into a plain conductor.
    let mut g = grid(4, 1, 4);
    g.set_at(Point::new(1, 0, 1), 2);
    let rule = WireWorldRule;
    let sched = all_workers(3);
    g.tick(&rule, NeighborhoodKind::Moore, sched);
    g.tick(&rule, NeighborhoodKind::Moore, sched);
    assert_eq!(g.get_at(Point::new(1, 0, 1)), 1);
    assert!(g.compute_diff(&rule, NeighborhoodKind::Moore, sched).is_empty());
    let before = g.states();
    g.tick(&rule, NeighborhoodKind::Moore, sched);
    assert_eq!(g.states(), before);
}

#[test]
fn still_life_block_is_steady() {
    let mut g = grid(6, 1, 6);
    for (x, z) in [(2, 2), (2, 3), (3, 2), (3, 3)] {
        g.set_at(Point::new(x, 0, z), 1);
    }
    let rule = planar_life();
    for workers in [1, 5, 8] {
        let s = Schedule { workers, remainder: Remainder::Skipped };
        assert!(g.compute_diff(&rule, NeighborhoodKind::Moore, s).is_empty());
    }
}

#[test]
fn uneven_partition_skips_or_covers_the_remainder() {
    // 210 cells over 8 workers: slices of 26, remainder 2.
    let mut skipped = grid(6, 5, 7);
    for i in 0..skipped.len() {
        skipped.set(i, 2);
    }
    let mut covered = skipped.clone();
    let s = Schedule { workers: 8, remainder: Remainder::Skipped };
    let slices = s.slices(210);
    assert_eq!(slices.len(), 8);
    assert_eq!(slices[0], (0, 26));
    assert_eq!(slices[7], (182, 208));
    skipped.tick(&WireWorldRule, NeighborhoodKind::Moore, s);
    let states = skipped.states();
    assert!(states[..208].iter().all(|&v| v == 3));
    assert_eq!(&states[208..], &[2, 2]);

    let c = all_workers(8);
    assert_eq!(c.slices(210)[7], (182, 210));
    covered.tick(&WireWorldRule, NeighborhoodKind::Moore, c);
    assert!(covered.states().iter().all(|&v| v == 3));
}

#[test]
fn more_workers_than_cells() {
    let mut g = grid(2, 1, 1);
    g.set(0, 2);
    g.set(1, 2);
    let mut h = g.clone();
    g.tick(&WireWorldRule, NeighborhoodKind::VonNeumann, Schedule { workers: 5, remainder: Remainder::Skipped });
    assert_eq!(g.states(), vec![2, 2]);
    h.tick(&WireWorldRule, NeighborhoodKind::VonNeumann, all_workers(5));
    assert_eq!(h.states(), vec![3, 3]);
}

#[test]
fn slices_evaluated_separately_then_applied_match_tick() {
    let mut a = grid(5, 4, 3);
    pattern(&mut a, 7);
    let mut b = a.clone();
    let rule = LifeRule { survive_min: 3, survive_max: 6, birth_min: 4, birth_max: 5, states: 3 };
    let s = all_workers(7);
    let parts: Vec<Vec<(usize, u8)>> = s
        .slices(a.len())
        .iter()
        .map(|&(lo, hi)| a.evaluate_slice(&rule, NeighborhoodKind::Moore, lo, hi))
        .collect();
    for part in &parts {
        assert!(a.apply(part));
    }
    b.tick(&rule, NeighborhoodKind::Moore, s);
    assert_eq!(a.states(), b.states());
}

#[test]
fn apply_rejects_out_of_range_diff() {
    let mut g = grid(2, 2, 2);
    assert!(!g.apply(&vec![(1, 5), (8, 1)]));
    assert_eq!(g.states(), vec![0; 8]);
    assert!(g.apply(&vec![(1, 5), (1, 6), (7, 1)]));
    assert_eq!(g.states(), vec![0, 6, 0, 0, 0, 0, 0, 1]);
}
