//! Partitioning of the index space into contiguous per-worker slices.
use vstd::arithmetic::div_mod::{lemma_div_pos_is_pos, lemma_fundamental_div_mod};
use vstd::prelude::*;

verus! {

/// What happens to the last `cell_count % workers` indices, which an even
/// split of the index space leaves over.
#[derive(Clone, Copy, Debug, PartialEq, Eq, Structural)]
pub enum Remainder {
    /// They belong to no slice and are not evaluated in that tick.
    Skipped,
    /// The last worker's slice runs to the end of the index space.
    LastWorker,
}

/// How a tick divides its work: `workers` contiguous slices of
/// `cell_count / workers` indices each, worker `t` taking
/// `[len * t, len * (t + 1))`, and a policy for the remainder.
#[derive(Clone, Copy, Debug, PartialEq, Eq, Structural)]
pub struct Schedule {
    pub workers: usize,
    pub remainder: Remainder,
}

impl Schedule {
    pub open spec fn wf(self) -> bool {
        self.workers > 0
    }

    /// The bounds `[start, end)` of worker `t`'s slice of `n` indices.
    pub open spec fn slice(self, n: nat, t: int) -> (int, int) {
        let len = n as int / self.workers as int;
        let end = if t == self.workers - 1 && self.remainder == Remainder::LastWorker {
            n as int
        } else {
            len * (t + 1)
        };
        (len * t, end)
    }

    /// The indices `[0, covered(n))` are evaluated; the rest are skipped.
    pub open spec fn covered(self, n: nat) -> int {
        if self.remainder == Remainder::LastWorker {
            n as int
        } else {
            (n as int / self.workers as int) * self.workers
        }
    }

    /// The slice bounds of every worker, in worker order. Consecutive slices
    /// meet, the first starts at 0 and the last ends at `covered`.
    pub fn slices(&self, cell_count: usize) -> (r: Vec<(usize, usize)>)
        requires
            self.wf(),
        ensures
            r@.len() == self.workers,
            forall|t: int|
                0 <= t < r@.len() ==> (#[trigger] r@[t]).0 == self.slice(cell_count as nat, t).0
                    && r@[t].1 == self.slice(cell_count as nat, t).1,
            forall|t: int| 0 <= t < r@.len() ==> (#[trigger] r@[t]).0 <= r@[t].1,
            forall|t: int|
                0 <= t < r@.len() ==> (#[trigger] r@[t]).1 <= self.covered(cell_count as nat),
            forall|t: int| 0 < t < r@.len() ==> (#[trigger] r@[t]).0 == r@[t - 1].1,
            r@[0].0 == 0,
            r@[r@.len() - 1].1 == self.covered(cell_count as nat),
            0 <= self.covered(cell_count as nat) <= cell_count,
    {
        let w = self.workers;
        let len = cell_count / w;
        let ghost n = cell_count as int;
        proof {
            lemma_fundamental_div_mod(n, w as int);
            lemma_div_pos_is_pos(n, w as int);
            assert(len * w <= n);
        }
        let mut r: Vec<(usize, usize)> = Vec::new();
        let mut start: usize = 0;
        let mut t: usize = 0;
        while t < w
            invariant
                w == self.workers,
                w > 0,
                len == n / w as int,
                len * w <= n,
                len * w == self.covered(cell_count as nat) || self.remainder == Remainder::LastWorker,
                n == cell_count,
                t <= w,
                start == len * t,
                r@.len() == t,
                forall|j: int|
                    0 <= j < t ==> (#[trigger] r@[j]).0 == self.slice(cell_count as nat, j).0
                        && r@[j].1 == self.slice(cell_count as nat, j).1,
                forall|j: int| 0 <= j < t ==> (#[trigger] r@[j]).0 <= r@[j].1,
                forall|j: int|
                    0 <= j < t ==> (#[trigger] r@[j]).1 <= self.covered(cell_count as nat),
                forall|j: int| 0 < j < t ==> (#[trigger] r@[j]).0 == r@[j - 1].1,
                t > 0 ==> r@[0].0 == 0,
                t > 0 ==> r@[t - 1].1 == start || (t == w && self.remainder == Remainder::LastWorker
                    && r@[t - 1].1 == cell_count),
            decreases w - t,
        {
            proof {
                assert(len * (t + 1) <= len * w) by (nonlinear_arith)
                    requires
                        t + 1 <= w,
                        len >= 0,
                ;
                assert(len * (t + 1) == len * t + len) by (nonlinear_arith);
            }
            let next = start + len;
            let end = if t == w - 1 && self.remainder == Remainder::LastWorker {
                cell_count
            } else {
                next
            };
            proof {
                assert(len * t <= cell_count) by (nonlinear_arith)
                    requires
                        t <= w,
                        len >= 0,
                        len * w <= cell_count,
                ;
            }
            r.push((start, end));
            start = next;
            t = t + 1;
        }
        r
    }
}

} // verus!
