//! Transition rules: pure functions from a cell's own state and its
//! neighbors' states to its next state.
use crate::neighborhood::{count_of, living_count, Neighborhood};
use vstd::prelude::*;

verus! {

/// A pure transition rule. `spec_next` is what the rule computes; `next`
/// computes it. The result depends on the two inputs alone, so the rule may
/// be evaluated for many cells in any order, or from several threads.
pub trait TransitionRule {
    spec fn spec_next(&self, own: u8, neighbors: Seq<u8>) -> u8;

    fn next(&self, own: u8, neighbors: &Neighborhood) -> (r: u8)
        requires
            neighbors.wf(),
        ensures
            r == self.spec_next(own, neighbors@),
    ;
}

/// A survive/birth/decay rule over the number of living neighbors.
///
/// State 1 is alive; it stays alive when the living-neighbor count lies in
/// `survive_min..=survive_max` and otherwise starts to decay. State 0 is
/// empty; it is born, in the highest state `states - 1`, when the count
/// lies in `birth_min..=birth_max`. Every other state decays by one per
/// tick. With `states == 2` this is a Life-like rule: `2, 3, 3, 3` is
/// Conway's Life when neighbors are counted in a plane.
#[derive(Clone, Copy, Debug, PartialEq, Eq, Structural)]
pub struct LifeRule {
    pub survive_min: u8,
    pub survive_max: u8,
    pub birth_min: u8,
    pub birth_max: u8,
    pub states: u8,
}

impl LifeRule {
    pub open spec fn born_state(self) -> u8 {
        if self.states == 0 {
            0
        } else {
            (self.states - 1) as u8
        }
    }
}

impl TransitionRule for LifeRule {
    open spec fn spec_next(&self, own: u8, neighbors: Seq<u8>) -> u8 {
        let n = living_count(neighbors);
        if own == 0 {
            if self.birth_min <= n <= self.birth_max {
                self.born_state()
            } else {
                0
            }
        } else if own == 1 {
            if self.survive_min <= n <= self.survive_max {
                1
            } else {
                0
            }
        } else {
            (own - 1) as u8
        }
    }

    fn next(&self, own: u8, neighbors: &Neighborhood) -> (r: u8) {
        let n = neighbors.living();
        if own == 0 {
            if self.birth_min as usize <= n && n <= self.birth_max as usize {
                if self.states == 0 {
                    0
                } else {
                    self.states - 1
                }
            } else {
                0
            }
        } else if own == 1 {
            if self.survive_min as usize <= n && n <= self.survive_max as usize {
                1
            } else {
                0
            }
        } else {
            own - 1
        }
    }
}

/// WireWorld: 0 is empty, 1 a conductor, 2 an electron head and 3 an
/// electron tail. A conductor becomes a head when one or two neighbors are
/// heads; a head becomes a tail, and a tail a conductor.
#[derive(Clone, Copy, Debug, PartialEq, Eq, Structural)]
pub struct WireWorldRule;

impl TransitionRule for WireWorldRule {
    open spec fn spec_next(&self, own: u8, neighbors: Seq<u8>) -> u8 {
        if own == 1 {
            let heads = count_of(neighbors, 2);
            if 1 <= heads <= 2 {
                2
            } else {
                1
            }
        } else if own == 2 {
            3
        } else if own == 3 {
            1
        } else {
            own
        }
    }

    fn next(&self, own: u8, neighbors: &Neighborhood) -> (r: u8) {
        if own == 1 {
            let heads = neighbors.count(2);
            if 1 <= heads && heads <= 2 {
                2
            } else {
                1
            }
        } else if own == 2 {
            3
        } else if own == 3 {
            1
        } else {
            own
        }
    }
}

} // verus!
