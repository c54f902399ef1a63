//! The flat binary snapshot format: three header bytes `x_len`, `y_len`,
//! `z_len`, then one byte per cell in index order. A payload of the wrong
//! length is zero-padded or truncated, never rejected.
use crate::extent::{lemma_cell_count_bound, GridError, Size};
use crate::grid::Automata;
use vstd::prelude::*;

verus! {

/// The bytes a grid is saved as.
pub open spec fn snapshot_bytes(size: Size, cells: Seq<u8>) -> Seq<u8> {
    seq![size.x_len, size.y_len, size.z_len] + cells
}

/// The extent a snapshot's header names.
pub open spec fn header_size(bytes: Seq<u8>) -> Size {
    Size { x_len: bytes[0], y_len: bytes[1], z_len: bytes[2] }
}

/// The `n` cell states a snapshot holds: the bytes after the header, cut
/// to `n` or padded with 0 up to `n`.
pub open spec fn payload(bytes: Seq<u8>, n: nat) -> Seq<u8> {
    Seq::new(n, |i: int| if 3 + i < bytes.len() { bytes[3 + i] } else { 0u8 })
}

impl Automata {
    /// The grid in the snapshot format.
    pub fn save(&self) -> (r: Vec<u8>)
        ensures
            r@ == snapshot_bytes(self.spec_size(), self@),
    {
        let size = self.size();
        let mut r: Vec<u8> = Vec::new();
        r.push(size.x_len);
        r.push(size.y_len);
        r.push(size.z_len);
        let n = self.len();
        let mut i: usize = 0;
        while i < n
            invariant
                n == self@.len(),
                i <= n,
                r@ == seq![size.x_len, size.y_len, size.z_len] + self@.subrange(0, i as int),
            decreases n - i,
        {
            r.push(self.get(i));
            assert(r@ =~= seq![size.x_len, size.y_len, size.z_len] + self@.subrange(0, i + 1));
            i = i + 1;
        }
        assert(self@.subrange(0, n as int) =~= self@);
        r
    }

    /// Reads a grid from the snapshot format. Fails when the header is
    /// incomplete or names an empty axis.
    pub fn load(bytes: &[u8]) -> (r: Result<Automata, GridError>)
        ensures
            bytes@.len() < 3 ==> r == Err::<Automata, GridError>(GridError::MissingHeader),
            bytes@.len() >= 3 ==> {
                let size = header_size(bytes@);
                &&& r is Ok <==> size.wf()
                &&& r is Err ==> r->Err_0 == GridError::EmptyAxis
                &&& r is Ok ==> {
                    &&& r->Ok_0.wf()
                    &&& r->Ok_0.spec_size() == size
                    &&& r->Ok_0@ == payload(bytes@, size.spec_cell_count())
                }
            },
    {
        if bytes.len() < 3 {
            return Err(GridError::MissingHeader);
        }
        let size = Size { x_len: bytes[0], y_len: bytes[1], z_len: bytes[2] };
        if !size.is_valid() {
            return Err(GridError::EmptyAxis);
        }
        let n = size.cell_count();
        proof {
            lemma_cell_count_bound(size);
        }
        let mut cells: Vec<u8> = Vec::new();
        let mut i: usize = 0;
        while i < n
            invariant
                n == size.spec_cell_count(),
                n <= 255 * 255 * 255,
                bytes@.len() >= 3,
                i <= n,
                cells@ =~= payload(bytes@, n as nat).subrange(0, i as int),
            decreases n - i,
        {
            let s = if i < bytes.len() - 3 {
                bytes[i + 3]
            } else {
                0u8
            };
            cells.push(s);
            i = i + 1;
        }
        assert(cells@ =~= payload(bytes@, n as nat));
        Ok(Automata::from_states(size, cells))
    }
}

/// Loading a saved grid gives back its extent and every cell's state.
pub proof fn lemma_snapshot_round_trip(size: Size, cells: Seq<u8>)
    requires
        size.wf(),
        cells.len() == size.spec_cell_count(),
    ensures
        snapshot_bytes(size, cells).len() >= 3,
        header_size(snapshot_bytes(size, cells)) == size,
        payload(snapshot_bytes(size, cells), size.spec_cell_count()) == cells,
{
    let bytes = snapshot_bytes(size, cells);
    assert(bytes[0] == size.x_len && bytes[1] == size.y_len && bytes[2] == size.z_len);
    assert(payload(bytes, size.spec_cell_count()) =~= cells);
}

} // verus!
