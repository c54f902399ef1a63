use block_automata::{Automata, GridError, Point, Size};

#[test]
fn snapshot_round_trip() {
    let mut g = Automata::new(Size::new(3, 1, 3).unwrap()).unwrap();
    g.set_at(Point::new(0, 0, 0), 1);
    g.set_at(Point::new(2, 0, 0), 2);
    g.set_at(Point::new(1, 0, 1), 3);
    g.set_at(Point::new(2, 0, 2), 1);
    let bytes = g.save();
    assert_eq!(bytes, vec![3, 1, 3, 1, 0, 2, 0, 3, 0, 0, 0, 1]);
    let loaded = Automata::load(&bytes).unwrap();
    assert_eq!(loaded.size(), g.size());
    assert_eq!(loaded.cells(), g.cells());
}

#[test]
fn short_payload_is_zero_padded() {
    let g = Automata::load(&[2, 1, 2, 7, 8]).unwrap();
    assert_eq!(g.states(), vec![7, 8, 0, 0]);
}

#[test]
fn long_payload_is_truncated() {
    let g = Automata::load(&[1, 2, 1, 4, 5, 6, 7]).unwrap();
    assert_eq!(g.states(), vec![4, 5]);
}

#[test]
fn header_only_gives_empty_grid() {
    let g = Automata::load(&[2, 2, 2]).unwrap();
    assert_eq!(g.states(), vec![0; 8]);
}

#[test]
fn incomplete_header_is_an_error() {
    assert!(matches!(Automata::load(&[]), Err(GridError::MissingHeader)));
    assert!(matches!(Automata::load(&[3, 3]), Err(GridError::MissingHeader)));
}

#[test]
fn empty_axis_in_header_is_an_error() {
    assert!(matches!(Automata::load(&[3, 0, 3, 1, 1]), Err(GridError::EmptyAxis)));
}
