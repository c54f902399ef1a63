//! Dense cell storage for a grid of fixed extent, with direct reads and
//! writes, neighbor queries and read-only traversal in index order.
use crate::extent::{lemma_index_of_in_range, GridError, Point, Size};
use crate::neighborhood::{neighbor_point, offsets, Neighborhood, NeighborhoodKind};
use vstd::prelude::*;

verus! {

/// The states of the neighbors of the in-bounds cell `p`, in the order of
/// the topology's offsets.
pub open spec fn neighbor_states(cells: Seq<u8>, size: Size, kind: NeighborhoodKind, p: Point) -> Seq<
    u8,
> {
    offsets(kind).map_values(|o: (int, int, int)| cells[size.index_of(neighbor_point(size, p, o))])
}

/// Relies on rand::Rng::gen_range on rand::thread_rng(): a value drawn
/// from `0..bound`, which it panics on only when empty.
#[verifier::external_body]
fn random_below(bound: u8) -> (r: u8)
    requires
        bound > 0,
    ensures
        r < bound,
{
    rand::Rng::gen_range(&mut rand::thread_rng(), 0..bound)
}

/// A grid: an extent and one state per cell, stored densely in index order.
/// State 0 is the background state.
#[derive(Clone, Debug)]
pub struct Automata {
    cells: Vec<u8>,
    size: Size,
}

impl View for Automata {
    type V = Seq<u8>;

    /// The cell states in index order.
    closed spec fn view(&self) -> Seq<u8> {
        self.cells@
    }
}

impl Automata {
    pub closed spec fn spec_size(&self) -> Size {
        self.size
    }

    /// The extent has no empty axis and there is one state per cell.
    pub open spec fn wf(&self) -> bool {
        &&& self.spec_size().wf()
        &&& self@.len() == self.spec_size().spec_cell_count()
    }

    /// The state of the in-bounds cell `p`.
    pub open spec fn state_at(&self, p: Point) -> u8 {
        self@[self.spec_size().index_of(p)]
    }

    /// An all-background grid of the given extent; an extent with an empty
    /// axis is rejected.
    pub fn new(size: Size) -> (r: Result<Automata, GridError>)
        ensures
            r is Ok <==> size.wf(),
            r is Err ==> r->Err_0 == GridError::EmptyAxis,
            r is Ok ==> r->Ok_0.wf() && r->Ok_0.spec_size() == size && r->Ok_0@ == Seq::new(
                size.spec_cell_count(),
                |i: int| 0u8,
            ),
    {
        if !size.is_valid() {
            return Err(GridError::EmptyAxis);
        }
        let n = size.cell_count();
        let cells = vec![0u8; n];
        let r = Automata { cells, size };
        assert(r@ =~= Seq::new(size.spec_cell_count(), |i: int| 0u8));
        Ok(r)
    }

    /// Builds a grid from an extent and its states in index order.
    pub fn from_states(size: Size, cells: Vec<u8>) -> (r: Automata)
        requires
            size.wf(),
            cells@.len() == size.spec_cell_count(),
        ensures
            r.wf(),
            r.spec_size() == size,
            r@ == cells@,
    {
        Automata { cells, size }
    }

    pub fn size(&self) -> (r: Size)
        ensures
            r == self.spec_size(),
    {
        self.size
    }

    /// The number of cells.
    pub fn len(&self) -> (r: usize)
        ensures
            r == self@.len(),
    {
        self.cells.len()
    }

    /// The state at `index`.
    pub fn get(&self, index: usize) -> (r: u8)
        requires
            index < self@.len(),
        ensures
            r == self@[index as int],
    {
        self.cells[index]
    }

    /// Writes the state at `index`.
    pub fn set(&mut self, index: usize, state: u8)
        requires
            index < old(self)@.len(),
        ensures
            final(self)@ == old(self)@.update(index as int, state),
            final(self).spec_size() == old(self).spec_size(),
    {
        self.cells.set(index, state);
    }

    /// The state of the in-bounds cell `p`.
    pub fn get_at(&self, p: Point) -> (r: u8)
        requires
            self.wf(),
            self.spec_size().contains(p),
        ensures
            r == self.state_at(p),
    {
        proof {
            lemma_index_of_in_range(self.size, p);
        }
        let i = self.size.to_index(p).unwrap();
        self.cells[i]
    }

    /// Writes the state of the in-bounds cell `p`.
    pub fn set_at(&mut self, p: Point, state: u8)
        requires
            old(self).wf(),
            old(self).spec_size().contains(p),
        ensures
            final(self)@ == old(self)@.update(old(self).spec_size().index_of(p), state),
            final(self).spec_size() == old(self).spec_size(),
    {
        proof {
            lemma_index_of_in_range(self.size, p);
        }
        let i = self.size.to_index(p).unwrap();
        self.cells.set(i, state);
    }

    /// The states of the neighbors of the in-bounds cell `p`.
    pub fn neighborhood(&self, p: Point, kind: NeighborhoodKind) -> (r: Neighborhood)
        requires
            self.wf(),
            self.spec_size().contains(p),
        ensures
            r.wf(),
            r@ == neighbor_states(self@, self.spec_size(), kind, p),
            r@.len() == offsets(kind).len(),
    {
        let n = kind.neighbor_count();
        let mut r = Neighborhood::empty();
        let mut k: usize = 0;
        while k < n
            invariant
                self.wf(),
                self.spec_size().contains(p),
                n == offsets(kind).len(),
                n <= 26,
                k <= n,
                r.wf(),
                r@ =~= neighbor_states(self@, self.spec_size(), kind, p).subrange(0, k as int),
            decreases n - k,
        {
            let q = self.size.neighbor_at(p, kind, k);
            let s = self.get_at(q);
            r.push(s);
            k = k + 1;
        }
        r
    }

    /// The states of the 26 Moore neighbors of `p`.
    pub fn moore_neighborhood(&self, p: Point) -> (r: Neighborhood)
        requires
            self.wf(),
            self.spec_size().contains(p),
        ensures
            r.wf(),
            r@ == neighbor_states(self@, self.spec_size(), NeighborhoodKind::Moore, p),
            r@.len() == 26,
    {
        self.neighborhood(p, NeighborhoodKind::Moore)
    }

    /// The states of the 6 Von Neumann neighbors of `p`.
    pub fn von_neumann_neighborhood(&self, p: Point) -> (r: Neighborhood)
        requires
            self.wf(),
            self.spec_size().contains(p),
        ensures
            r.wf(),
            r@ == neighbor_states(self@, self.spec_size(), NeighborhoodKind::VonNeumann, p),
            r@.len() == 6,
    {
        self.neighborhood(p, NeighborhoodKind::VonNeumann)
    }

    /// The coordinates of all cells, in index order.
    pub fn iter(&self) -> (r: AutomataIterator)
        ensures
            r.spec_size() == self.spec_size(),
            r.position() == 0,
    {
        AutomataIterator::new(self.size)
    }

    /// The states of all cells, in index order.
    pub fn states(&self) -> (r: Vec<u8>)
        ensures
            r@ == self@,
    {
        self.cells.clone()
    }

    /// Every cell's coordinate paired with its state, in index order.
    pub fn cells(&self) -> (r: Vec<(Point, u8)>)
        requires
            self.wf(),
        ensures
            r@.len() == self@.len(),
            forall|i: int|
                0 <= i < r@.len() ==> #[trigger] r@[i] == (self.spec_size().point_of(i), self@[i]),
    {
        let n = self.cells.len();
        let mut r: Vec<(Point, u8)> = Vec::new();
        let mut i: usize = 0;
        while i < n
            invariant
                self.wf(),
                n == self@.len(),
                i <= n,
                r@.len() == i,
                forall|j: int|
                    0 <= j < i ==> #[trigger] r@[j] == (self.spec_size().point_of(j), self@[j]),
            decreases n - i,
        {
            let p = self.size.to_point(i);
            r.push((p, self.cells[i]));
            i = i + 1;
        }
        r
    }

    /// Sets every cell to a state drawn uniformly from `0..states`.
    pub fn fill_random(&mut self, states: u8)
        requires
            old(self).wf(),
            states > 0,
        ensures
            final(self).wf(),
            final(self).spec_size() == old(self).spec_size(),
            forall|i: int| 0 <= i < final(self)@.len() ==> #[trigger] final(self)@[i] < states,
    {
        let n = self.cells.len();
        let ghost size = self.size;
        let mut i: usize = 0;
        while i < n
            invariant
                self.wf(),
                self.size == size,
                states > 0,
                n == self@.len(),
                i <= n,
                forall|j: int| 0 <= j < i ==> #[trigger] self@[j] < states,
            decreases n - i,
        {
            let s = random_below(states);
            self.cells.set(i, s);
            i = i + 1;
        }
    }
}

/// A restartable walk over the coordinates of an extent, in index order.
pub struct AutomataIterator {
    size: Size,
    index: usize,
}

impl AutomataIterator {
    pub closed spec fn spec_size(&self) -> Size {
        self.size
    }

    /// How many coordinates have been handed out.
    pub closed spec fn position(&self) -> nat {
        self.index as nat
    }

    /// A walk that starts at index 0.
    pub fn new(size: Size) -> (r: AutomataIterator)
        ensures
            r.spec_size() == size,
            r.position() == 0,
    {
        AutomataIterator { size, index: 0 }
    }

    /// The next coordinate, or `None` once every cell has been visited.
    pub fn next(&mut self) -> (r: Option<Point>)
        requires
            old(self).spec_size().wf(),
            old(self).position() <= old(self).spec_size().spec_cell_count(),
        ensures
            final(self).spec_size() == old(self).spec_size(),
            final(self).position() <= final(self).spec_size().spec_cell_count(),
            old(self).position() < old(self).spec_size().spec_cell_count() ==> {
                &&& r == Some(old(self).spec_size().point_of(old(self).position() as int))
                &&& final(self).position() == old(self).position() + 1
            },
            old(self).position() == old(self).spec_size().spec_cell_count() ==> {
                &&& r is None
                &&& final(self).position() == old(self).position()
            },
    {
        let n = self.size.cell_count();
        if self.index >= n {
            return None;
        }
        let p = self.size.to_point(self.index);
        self.index = self.index + 1;
        Some(p)
    }
}

} // verus!
