//! Neighbor topologies and the fixed-capacity collection of neighbor states
//! handed to a transition rule.
use crate::extent::{Point, Size};
use vstd::prelude::*;

verus! {

/// The two neighbor topologies.
#[derive(Clone, Copy, Debug, PartialEq, Eq, Structural)]
pub enum NeighborhoodKind {
    /// The 26 cells within Chebyshev distance one.
    Moore,
    /// The 6 axis-aligned unit neighbors.
    VonNeumann,
}

/// The most neighbors any topology yields.
pub const MAX_NEIGHBORS: usize = 26;

/// The Moore offset at position `k` (`0 <= k < 26`): all of `{-1, 0, 1}`
/// on each axis, x outermost, then y, then z innermost, with the zero
/// offset left out.
pub open spec fn moore_offset(k: int) -> (int, int, int) {
    let j = if k < 13 { k } else { k + 1 };
    (j / 9 - 1, (j / 3) % 3 - 1, j % 3 - 1)
}

/// The offsets of a topology, in their fixed order. Von Neumann's order is
/// -x, +x, -y, +y, -z, +z.
pub open spec fn offsets(kind: NeighborhoodKind) -> Seq<(int, int, int)> {
    match kind {
        NeighborhoodKind::Moore => Seq::new(26, |k: int| moore_offset(k)),
        NeighborhoodKind::VonNeumann => seq![
            (-1int, 0int, 0int),
            (1int, 0int, 0int),
            (0int, -1int, 0int),
            (0int, 1int, 0int),
            (0int, 0int, -1int),
            (0int, 0int, 1int),
        ],
    }
}

/// The position reached from `p` by offset `o`, wrapped into the extent.
pub open spec fn neighbor_point(size: Size, p: Point, o: (int, int, int)) -> Point {
    size.wrapped(p.x + o.0, p.y + o.1, p.z + o.2)
}

impl NeighborhoodKind {
    /// How many neighbors the topology enumerates: 26 for Moore and 6 for
    /// Von Neumann, whatever the extent (wrapped duplicates are kept).
    pub fn neighbor_count(&self) -> (r: usize)
        ensures
            r == offsets(*self).len(),
            *self == NeighborhoodKind::Moore ==> r == 26,
            *self == NeighborhoodKind::VonNeumann ==> r == 6,
    {
        match self {
            NeighborhoodKind::Moore => 26,
            NeighborhoodKind::VonNeumann => 6,
        }
    }

    /// The offset at position `k` of the topology's fixed order.
    pub fn offset(&self, k: usize) -> (r: (i16, i16, i16))
        requires
            k < offsets(*self).len(),
        ensures
            (r.0 as int, r.1 as int, r.2 as int) == offsets(*self)[k as int],
    {
        match self {
            NeighborhoodKind::Moore => {
                let j: usize = if k < 13 {
                    k
                } else {
                    k + 1
                };
                ((j / 9) as i16 - 1, ((j / 3) % 3) as i16 - 1, (j % 3) as i16 - 1)
            },
            NeighborhoodKind::VonNeumann => {
                if k == 0 {
                    (-1, 0, 0)
                } else if k == 1 {
                    (1, 0, 0)
                } else if k == 2 {
                    (0, -1, 0)
                } else if k == 3 {
                    (0, 1, 0)
                } else if k == 4 {
                    (0, 0, -1)
                } else {
                    (0, 0, 1)
                }
            },
        }
    }
}

impl Size {
    /// The wrapped positions of the neighbors of the in-bounds cell `p`, in
    /// the topology's fixed order. Positions are not deduplicated: on an axis
    /// of length 1 or 2 several offsets reach the same cell.
    pub fn neighbor_points(&self, p: Point, kind: NeighborhoodKind) -> (r: Vec<Point>)
        requires
            self.wf(),
            self.contains(p),
        ensures
            r@.len() == offsets(kind).len(),
            forall|k: int|
                0 <= k < r@.len() ==> #[trigger] r@[k] == neighbor_point(*self, p, offsets(kind)[k]),
            forall|k: int| 0 <= k < r@.len() ==> self.contains(#[trigger] r@[k]),
    {
        let n = kind.neighbor_count();
        let mut r: Vec<Point> = Vec::new();
        let mut k: usize = 0;
        while k < n
            invariant
                self.wf(),
                self.contains(p),
                n == offsets(kind).len(),
                k <= n,
                r@.len() == k,
                forall|j: int|
                    0 <= j < k ==> #[trigger] r@[j] == neighbor_point(*self, p, offsets(kind)[j]),
                forall|j: int| 0 <= j < k ==> self.contains(#[trigger] r@[j]),
            decreases n - k,
        {
            let q = self.neighbor_at(p, kind, k);
            r.push(q);
            k = k + 1;
        }
        r
    }

    /// The wrapped position of the neighbor at position `k` of `p`.
    pub fn neighbor_at(&self, p: Point, kind: NeighborhoodKind, k: usize) -> (r: Point)
        requires
            self.wf(),
            self.contains(p),
            k < offsets(kind).len(),
        ensures
            r == neighbor_point(*self, p, offsets(kind)[k as int]),
            self.contains(r),
    {
        let (dx, dy, dz) = kind.offset(k);
        self.wrap(Point { x: p.x + dx, y: p.y + dy, z: p.z + dz })
    }
}

/// How many entries of `s` equal `v`.
pub open spec fn count_of(s: Seq<u8>, v: u8) -> nat
    decreases s.len(),
{
    if s.len() == 0 {
        0
    } else {
        count_of(s.drop_last(), v) + if s.last() == v {
            1nat
        } else {
            0nat
        }
    }
}

/// How many entries of `s` are not the background state 0.
pub open spec fn living_count(s: Seq<u8>) -> nat
    decreases s.len(),
{
    if s.len() == 0 {
        0
    } else {
        living_count(s.drop_last()) + if s.last() != 0 {
            1nat
        } else {
            0nat
        }
    }
}

/// The states of a cell's neighbors, in the order of its topology's
/// offsets, held without heap allocation.
pub struct Neighborhood {
    states: [u8; 26],
    len: usize,
}

impl View for Neighborhood {
    type V = Seq<u8>;

    closed spec fn view(&self) -> Seq<u8> {
        self.states@.subrange(0, self.len as int)
    }
}

impl Neighborhood {
    pub closed spec fn wf(&self) -> bool {
        self.len <= MAX_NEIGHBORS
    }

    pub(crate) fn empty() -> (r: Neighborhood)
        ensures
            r.wf(),
            r@ == Seq::<u8>::empty(),
    {
        Neighborhood { states: [0u8; 26], len: 0 }
    }

    pub(crate) fn push(&mut self, state: u8)
        requires
            old(self).wf(),
            old(self)@.len() < MAX_NEIGHBORS,
        ensures
            final(self).wf(),
            final(self)@ == old(self)@.push(state),
    {
        let ghost before = self@;
        self.states[self.len] = state;
        self.len = self.len + 1;
        assert(self@ =~= before.push(state));
    }

    /// The number of neighbors held.
    pub fn len(&self) -> (r: usize)
        requires
            self.wf(),
        ensures
            r == self@.len(),
            r <= MAX_NEIGHBORS,
    {
        self.len
    }

    /// The state of the neighbor at position `k` of the topology's order.
    pub fn get(&self, k: usize) -> (r: u8)
        requires
            self.wf(),
            k < self@.len(),
        ensures
            r == self@[k as int],
    {
        self.states[k]
    }

    /// How many neighbors are in a state other than 0.
    pub fn living(&self) -> (r: usize)
        requires
            self.wf(),
        ensures
            r == living_count(self@),
    {
        let mut c: usize = 0;
        let mut i: usize = 0;
        while i < self.len
            invariant
                self.wf(),
                i <= self.len,
                c == living_count(self@.subrange(0, i as int)),
                c <= i,
            decreases self.len - i,
        {
            let ghost prefix = self@.subrange(0, i as int);
            assert(self@.subrange(0, i + 1).drop_last() =~= prefix);
            if self.states[i] != 0 {
                c = c + 1;
            }
            i = i + 1;
        }
        assert(self@.subrange(0, i as int) =~= self@);
        c
    }

    /// How many neighbors are in `state`.
    pub fn count(&self, state: u8) -> (r: usize)
        requires
            self.wf(),
        ensures
            r == count_of(self@, state),
    {
        let mut c: usize = 0;
        let mut i: usize = 0;
        while i < self.len
            invariant
                self.wf(),
                i <= self.len,
                c == count_of(self@.subrange(0, i as int), state),
                c <= i,
            decreases self.len - i,
        {
            let ghost prefix = self@.subrange(0, i as int);
            assert(self@.subrange(0, i + 1).drop_last() =~= prefix);
            if self.states[i] == state {
                c = c + 1;
            }
            i = i + 1;
        }
        assert(self@.subrange(0, i as int) =~= self@);
        c
    }
}

} // verus!
