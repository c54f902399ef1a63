use block_automata::{Automata, GridError, NeighborhoodKind, Point, Size};

fn grid(x: u8, y: u8, z: u8) -> Automata {
    Automata::new(Size::new(x, y, z).unwrap()).unwrap()
}

#[test]
fn new_grid_is_all_background() {
    let g = grid(3, 2, 4);
    assert_eq!(g.len(), 24);
    assert!(g.states().iter().all(|&s| s == 0));
}

#[test]
fn new_grid_rejects_empty_axis() {
    let bad = Size { x_len: 2, y_len: 0, z_len: 2 };
    assert!(matches!(Automata::new(bad), Err(GridError::EmptyAxis)));
}

#[test]
fn set_and_get_by_index_and_point() {
    let mut g = grid(3, 2, 4);
    g.set(5, 7);
    assert_eq!(g.get(5), 7);
    assert_eq!(g.get_at(g.size().to_point(5)), 7);
    g.set_at(Point::new(2, 1, 3), 9);
    assert_eq!(g.get(2 + 3 * 3 + 12), 9);
    assert_eq!(g.get_at(Point::new(2, 1, 3)), 9);
}

#[test]
fn neighborhood_cardinality() {
    assert_eq!(NeighborhoodKind::Moore.neighbor_count(), 26);
    assert_eq!(NeighborhoodKind::VonNeumann.neighbor_count(), 6);
    for (x, y, z) in [(1, 1, 1), (2, 2, 2), (5, 4, 3)] {
        let g = grid(x, y, z);
        let s = g.size();
        let p = Point::new(0, 0, 0);
        assert_eq!(g.moore_neighborhood(p).len(), 26);
        assert_eq!(g.von_neumann_neighborhood(p).len(), 6);
        assert_eq!(s.neighbor_points(p, NeighborhoodKind::Moore).len(), 26);
        assert_eq!(s.neighbor_points(p, NeighborhoodKind::VonNeumann).len(), 6);
    }
}

#[test]
fn moore_order_is_x_then_y_then_z() {
    let s = Size::new(5, 5, 5).unwrap();
    let pts = s.neighbor_points(Point::new(2, 2, 2), NeighborhoodKind::Moore);
    assert_eq!(pts[0], Point::new(1, 1, 1));
    assert_eq!(pts[1], Point::new(1, 1, 2));
    assert_eq!(pts[3], Point::new(1, 2, 1));
    assert_eq!(pts[12], Point::new(2, 2, 1));
    assert_eq!(pts[13], Point::new(2, 2, 3));
    assert_eq!(pts[25], Point::new(3, 3, 3));
    assert!(!pts.contains(&Point::new(2, 2, 2)));
    assert_eq!(NeighborhoodKind::Moore.offset(0), (-1, -1, -1));
    assert_eq!(NeighborhoodKind::Moore.offset(13), (0, 0, 1));
    assert_eq!(NeighborhoodKind::Moore.offset(25), (1, 1, 1));
}

#[test]
fn von_neumann_order() {
    let s = Size::new(5, 5, 5).unwrap();
    let pts = s.neighbor_points(Point::new(2, 2, 2), NeighborhoodKind::VonNeumann);
    assert_eq!(
        pts,
        vec![
            Point::new(1, 2, 2),
            Point::new(3, 2, 2),
            Point::new(2, 1, 2),
            Point::new(2, 3, 2),
            Point::new(2, 2, 1),
            Point::new(2, 2, 3),
        ]
    );
}

#[test]
fn neighbors_wrap_at_the_edges() {
    let s = Size::new(4, 3, 5).unwrap();
    let pts = s.neighbor_points(Point::new(0, 0, 0), NeighborhoodKind::VonNeumann);
    assert_eq!(pts[0], Point::new(3, 0, 0));
    assert_eq!(pts[2], Point::new(0, 2, 0));
    assert_eq!(pts[4], Point::new(0, 0, 4));
}

#[test]
fn small_axes_count_a_neighbor_more_than_once() {
    let mut g = grid(1, 1, 1);
    g.set(0, 1);
    let n = g.moore_neighborhood(Point::new(0, 0, 0));
    assert_eq!(n.living(), 26);
    assert_eq!(n.count(1), 26);
    let mut g = grid(3, 1, 3);
    g.set_at(Point::new(1, 0, 0), 1);
    // On the single y layer each in-plane neighbor is reached three times.
    let n = g.moore_neighborhood(Point::new(1, 0, 1));
    assert_eq!(n.living(), 3);
}

#[test]
fn neighborhood_counts_states() {
    let mut g = grid(3, 3, 3);
    g.set_at(Point::new(0, 1, 1), 2);
    g.set_at(Point::new(2, 1, 1), 2);
    g.set_at(Point::new(1, 0, 1), 3);
    let n = g.von_neumann_neighborhood(Point::new(1, 1, 1));
    assert_eq!(n.living(), 3);
    assert_eq!(n.count(2), 2);
    assert_eq!(n.count(3), 1);
    assert_eq!(n.count(0), 3);
    assert_eq!(n.get(0), 2);
    assert_eq!(n.get(2), 3);
    let m = g.moore_neighborhood(Point::new(1, 1, 1));
    assert_eq!(m.living(), 3);
    assert_eq!(m.count(0), 23);
}

#[test]
fn iteration_follows_index_order_and_restarts() {
    let mut g = grid(2, 3, 2);
    g.set(7, 4);
    let mut it = g.iter();
    let mut seen = Vec::new();
    while let Some(p) = it.next() {
        seen.push(p);
    }
    assert_eq!(seen.len(), 12);
    assert_eq!(seen[0], Point::new(0, 0, 0));
    assert_eq!(seen[1], Point::new(1, 0, 0));
    assert_eq!(seen[2], Point::new(0, 0, 1));
    assert_eq!(seen[4], Point::new(0, 1, 0));
    assert_eq!(it.next(), None);
    let mut again = g.iter();
    assert_eq!(again.next(), Some(Point::new(0, 0, 0)));
    let cells = g.cells();
    assert_eq!(cells.len(), 12);
    for (i, (p, s)) in cells.iter().enumerate() {
        assert_eq!(*p, seen[i]);
        assert_eq!(*s, if i == 7 { 4 } else { 0 });
    }
}

#[test]
fn random_fill_uses_only_requested_states() {
    let mut g = grid(6, 5, 7);
    g.fill_random(3);
    assert_eq!(g.len(), 210);
    assert!(g.states().iter().all(|&s| s < 3));
    g.fill_random(1);
    assert!(g.states().iter().all(|&s| s == 0));
}
