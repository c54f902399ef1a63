//! Grid extents, coordinates and the mapping between coordinates and
//! linear cell indices.
//!
//! The decomposition order is fixed: x varies fastest, then z, then y, so
//! `index = x + z * x_len + y * x_len * z_len`. Every other part of the
//! crate (neighbor enumeration, iteration, snapshots) relies on it.
use vstd::arithmetic::div_mod::{
    lemma_div_pos_is_pos, lemma_fundamental_div_mod, lemma_fundamental_div_mod_converse,
    lemma_mod_bound,
};
use vstd::arithmetic::mul::lemma_mul_nonnegative;
use vstd::prelude::*;

verus! {

/// A three-axis integer coordinate. In-bounds coordinates address cells
/// directly; offset coordinates may leave the extent and are wrapped first.
#[derive(Clone, Copy, Debug, PartialEq, Eq, Hash, Structural)]
pub struct Point {
    pub x: i16,
    pub y: i16,
    pub z: i16,
}

impl Point {
    pub fn new(x: i16, y: i16, z: i16) -> (r: Point)
        ensures
            r == (Point { x, y, z }),
    {
        Point { x, y, z }
    }
}

/// The lengths of the three axes of a grid. A usable extent has no zero
/// axis (see `wf`).
#[derive(Clone, Copy, Debug, PartialEq, Eq, Hash, Structural)]
pub struct Size {
    pub x_len: u8,
    pub y_len: u8,
    pub z_len: u8,
}

impl From<[u8; 3]> for Size {
    fn from(item: [u8; 3]) -> (r: Size) {
        Size { x_len: item[0], y_len: item[1], z_len: item[2] }
    }
}

impl vstd::std_specs::convert::FromSpecImpl<[u8; 3]> for Size {
    open spec fn obeys_from_spec() -> bool {
        true
    }

    open spec fn from_spec(item: [u8; 3]) -> Size {
        Size { x_len: item@[0], y_len: item@[1], z_len: item@[2] }
    }
}

/// Why a grid could not be built.
#[derive(Clone, Copy, Debug, PartialEq, Eq, Structural)]
pub enum GridError {
    /// One of the three axes has length zero.
    EmptyAxis,
    /// A snapshot is shorter than its three-byte header.
    MissingHeader,
}

impl Size {
    /// Every axis is at least one cell long.
    pub open spec fn wf(self) -> bool {
        self.x_len > 0 && self.y_len > 0 && self.z_len > 0
    }

    pub open spec fn spec_cell_count(self) -> nat {
        (self.x_len * self.y_len * self.z_len) as nat
    }

    /// `p` lies inside the extent on every axis.
    pub open spec fn contains(self, p: Point) -> bool {
        &&& 0 <= p.x < self.x_len
        &&& 0 <= p.y < self.y_len
        &&& 0 <= p.z < self.z_len
    }

    pub open spec fn index_of(self, p: Point) -> int {
        p.x + p.z * self.x_len + p.y * (self.x_len * self.z_len)
    }

    pub open spec fn point_of(self, i: int) -> Point {
        Point {
            x: (i % self.x_len as int) as i16,
            y: ((i / self.x_len as int) / self.z_len as int) as i16,
            z: ((i / self.x_len as int) % self.z_len as int) as i16,
        }
    }

    /// Floor modulo of each axis by its length: the toroidal image of an
    /// offset coordinate.
    pub open spec fn wrapped(self, x: int, y: int, z: int) -> Point {
        Point {
            x: (x % self.x_len as int) as i16,
            y: (y % self.y_len as int) as i16,
            z: (z % self.z_len as int) as i16,
        }
    }

    pub fn new(x_len: u8, y_len: u8, z_len: u8) -> (r: Result<Size, GridError>)
        ensures
            r is Ok <==> (x_len > 0 && y_len > 0 && z_len > 0),
            r is Ok ==> r->Ok_0 == (Size { x_len, y_len, z_len }),
            r is Err ==> r->Err_0 == GridError::EmptyAxis,
    {
        let s = Size { x_len, y_len, z_len };
        if s.is_valid() {
            Ok(s)
        } else {
            Err(GridError::EmptyAxis)
        }
    }

    pub fn is_valid(&self) -> (r: bool)
        ensures
            r == self.wf(),
    {
        self.x_len > 0 && self.y_len > 0 && self.z_len > 0
    }

    /// The number of cells in the extent.
    pub fn cell_count(&self) -> (r: usize)
        ensures
            r == self.spec_cell_count(),
    {
        proof {
            lemma_cell_count_bound(*self);
        }
        self.x_len as usize * self.y_len as usize * self.z_len as usize
    }

    /// The cell at the middle of each axis (rounding down).
    pub fn center(&self) -> (r: Point)
        ensures
            r == (Point {
                x: (self.x_len / 2) as i16,
                y: (self.y_len / 2) as i16,
                z: (self.z_len / 2) as i16,
            }),
            self.wf() ==> self.contains(r),
    {
        Point {
            x: (self.x_len / 2) as i16,
            y: (self.y_len / 2) as i16,
            z: (self.z_len / 2) as i16,
        }
    }

    /// The linear index of an in-bounds coordinate, or `None` when any axis
    /// is negative or not below its length.
    pub fn to_index(&self, point: Point) -> (r: Option<usize>)
        ensures
            r is Some <==> self.contains(point),
            r is Some ==> r->0 == self.index_of(point),
            r is Some ==> r->0 < self.spec_cell_count(),
    {
        if point.x < 0 || point.y < 0 || point.z < 0 {
            return None;
        }
        let x = point.x as usize;
        let y = point.y as usize;
        let z = point.z as usize;
        if x >= self.x_len as usize || y >= self.y_len as usize || z >= self.z_len as usize {
            return None;
        }
        proof {
            lemma_index_of_in_range(*self, point);
        }
        let xl = self.x_len as usize;
        let zl = self.z_len as usize;
        proof {
            lemma_small_products(x as int, z as int, y as int, xl as int, zl as int);
        }
        Some(x + z * xl + y * (xl * zl))
    }

    /// The coordinate of the cell at `index`.
    pub fn to_point(&self, index: usize) -> (r: Point)
        requires
            self.wf(),
            index < self.spec_cell_count(),
        ensures
            r == self.point_of(index as int),
            self.contains(r),
    {
        proof {
            lemma_point_of_in_range(*self, index as int);
        }
        let xl = self.x_len as usize;
        let zl = self.z_len as usize;
        let q = index / xl;
        let x = index % xl;
        let z = q % zl;
        let y = q / zl;
        Point { x: x as i16, y: y as i16, z: z as i16 }
    }

    /// Wraps an offset coordinate into the extent, axis by axis, with a
    /// floor modulo: the result is never negative, whatever the offset.
    pub fn wrap(&self, point: Point) -> (r: Point)
        requires
            self.wf(),
        ensures
            r == self.wrapped(point.x as int, point.y as int, point.z as int),
            self.contains(r),
    {
        Point {
            x: wrap_axis(point.x, self.x_len),
            y: wrap_axis(point.y, self.y_len),
            z: wrap_axis(point.z, self.z_len),
        }
    }
}

fn wrap_axis(v: i16, len: u8) -> (r: i16)
    requires
        len > 0,
    ensures
        r as int == v as int % len as int,
        0 <= r < len,
{
    proof {
        lemma_mod_bound(v as int, len as int);
    }
    v.checked_rem_euclid(len as i16).unwrap()
}

proof fn lemma_small_products(x: int, z: int, y: int, xl: int, zl: int)
    requires
        0 <= x < xl <= 255,
        0 <= z < zl <= 255,
        0 <= y <= 255,
    ensures
        0 <= z * xl <= 255 * 255,
        0 <= xl * zl <= 255 * 255,
        0 <= y * (xl * zl) <= 255 * 255 * 255,
{
    assert(0 <= z * xl <= 255 * 255) by (nonlinear_arith)
        requires
            0 <= z < zl <= 255,
            0 <= xl <= 255,
    ;
    assert(0 <= xl * zl <= 255 * 255) by (nonlinear_arith)
        requires
            0 <= xl <= 255,
            0 <= zl <= 255,
    ;
    assert(0 <= y * (xl * zl) <= 255 * 255 * 255) by (nonlinear_arith)
        requires
            0 <= y <= 255,
            0 <= xl * zl <= 255 * 255,
    ;
}

/// The cell count of any extent fits comfortably in a `usize`.
pub proof fn lemma_cell_count_bound(s: Size)
    ensures
        s.spec_cell_count() <= 255 * 255 * 255,
        s.x_len * s.y_len <= 255 * 255,
        s.wf() ==> s.spec_cell_count() > 0,
        s.spec_cell_count() == (s.x_len * s.z_len) * s.y_len,
{
    let (a, b, c) = (s.x_len as int, s.y_len as int, s.z_len as int);
    assert(a * b * c <= 255 * 255 * 255) by (nonlinear_arith)
        requires
            0 <= a <= 255,
            0 <= b <= 255,
            0 <= c <= 255,
    ;
    assert(a * b <= 255 * 255) by (nonlinear_arith)
        requires
            0 <= a <= 255,
            0 <= b <= 255,
    ;
    assert(a > 0 && b > 0 && c > 0 ==> a * b * c > 0) by (nonlinear_arith);
    assert(a * b * c == (a * c) * b) by (nonlinear_arith);
}

/// An in-bounds coordinate has an index below the cell count.
pub proof fn lemma_index_of_in_range(s: Size, p: Point)
    requires
        s.contains(p),
    ensures
        0 <= s.index_of(p) < s.spec_cell_count(),
        s.index_of(p) == p.x + s.x_len * (p.z + s.z_len * p.y),
{
    let (x, y, z) = (p.x as int, p.y as int, p.z as int);
    let (a, b, c) = (s.x_len as int, s.y_len as int, s.z_len as int);
    assert(x + z * a + y * (a * c) == x + a * (z + c * y)) by (nonlinear_arith);
    assert(x + a * (z + c * y) < a * b * c) by (nonlinear_arith)
        requires
            0 <= x < a,
            0 <= z < c,
            0 <= y < b,
    ;
    assert(0 <= x + a * (z + c * y)) by (nonlinear_arith)
        requires
            0 <= x < a,
            0 <= z < c,
            0 <= y < b,
    ;
}

/// Every index below the cell count decodes to an in-bounds coordinate.
pub proof fn lemma_point_of_in_range(s: Size, i: int)
    requires
        s.wf(),
        0 <= i < s.spec_cell_count(),
    ensures
        s.contains(s.point_of(i)),
        0 <= i % (s.x_len as int) < s.x_len,
        0 <= (i / (s.x_len as int)) % (s.z_len as int) < s.z_len,
        0 <= (i / (s.x_len as int)) / (s.z_len as int) < s.y_len,
{
    let (a, b, c) = (s.x_len as int, s.y_len as int, s.z_len as int);
    let q = i / a;
    lemma_mod_bound(i, a);
    lemma_div_pos_is_pos(i, a);
    lemma_mod_bound(q, c);
    lemma_div_pos_is_pos(q, c);
    lemma_fundamental_div_mod(i, a);
    lemma_fundamental_div_mod(q, c);
    let y = q / c;
    assert(y < b) by (nonlinear_arith)
        requires
            i < a * b * c,
            i == a * q + i % a,
            0 <= i % a < a,
            q == c * y + q % c,
            0 <= q % c,
            a > 0,
            c > 0,
    ;
}

/// Decoding the index of an in-bounds coordinate gives the coordinate back.
pub proof fn lemma_point_index_round_trip(s: Size, p: Point)
    requires
        s.wf(),
        s.contains(p),
    ensures
        s.point_of(s.index_of(p)) == p,
{
    let (x, y, z) = (p.x as int, p.y as int, p.z as int);
    let (a, c) = (s.x_len as int, s.z_len as int);
    lemma_index_of_in_range(s, p);
    let i = s.index_of(p);
    let q = z + c * y;
    lemma_mul_nonnegative(c, y);
    assert(i == q * a + x) by (nonlinear_arith)
        requires
            i == x + a * (z + c * y),
            q == z + c * y,
    ;
    lemma_fundamental_div_mod_converse(i, a, q, x);
    assert(q == y * c + z) by (nonlinear_arith)
        requires
            q == z + c * y,
    ;
    lemma_fundamental_div_mod_converse(q, c, y, z);
}

/// Encoding the coordinate of an index gives the index back.
pub proof fn lemma_index_point_round_trip(s: Size, i: int)
    requires
        s.wf(),
        0 <= i < s.spec_cell_count(),
    ensures
        s.index_of(s.point_of(i)) == i,
{
    let (a, c) = (s.x_len as int, s.z_len as int);
    lemma_point_of_in_range(s, i);
    let p = s.point_of(i);
    let q = i / a;
    lemma_fundamental_div_mod(i, a);
    lemma_fundamental_div_mod(q, c);
    assert(p.x == i % a && p.z == q % c && p.y == q / c);
    assert(i == (i % a) + (q % c) * a + (q / c) * (a * c)) by (nonlinear_arith)
        requires
            i == a * q + i % a,
            q == c * (q / c) + q % c,
    ;
}

/// The toroidal wrap always lands inside the extent, whatever the offset.
pub proof fn lemma_wrap_in_range(s: Size, x: int, y: int, z: int)
    requires
        s.wf(),
    ensures
        s.contains(s.wrapped(x, y, z)),
{
    lemma_mod_bound(x, s.x_len as int);
    lemma_mod_bound(y, s.y_len as int);
    lemma_mod_bound(z, s.z_len as int);
}

} // verus!
