//! One synchronous generation step: every cell's next state is computed
//! from a frozen view of the current generation, the changes are collected
//! as a diff, and the diff is applied only once all of it is known.
use crate::extent::{lemma_cell_count_bound, Size};
use crate::grid::{neighbor_states, Automata};
use crate::neighborhood::NeighborhoodKind;
use crate::rule::TransitionRule;
use crate::schedule::{Remainder, Schedule};
use vstd::arithmetic::div_mod::lemma_fundamental_div_mod;
use vstd::prelude::*;

verus! {

/// The state cell `i` takes in the next generation.
pub open spec fn next_state<R: TransitionRule>(
    rule: R,
    cells: Seq<u8>,
    size: Size,
    kind: NeighborhoodKind,
    i: int,
) -> u8 {
    rule.spec_next(cells[i], neighbor_states(cells, size, kind, size.point_of(i)))
}

/// The whole next generation.
pub open spec fn next_generation<R: TransitionRule>(
    rule: R,
    cells: Seq<u8>,
    size: Size,
    kind: NeighborhoodKind,
) -> Seq<u8> {
    Seq::new(cells.len(), |i: int| next_state(rule, cells, size, kind, i))
}

/// The generation after a tick that evaluates the indices `[0, covered)`
/// and leaves the others as they were.
pub open spec fn advanced<R: TransitionRule>(
    rule: R,
    cells: Seq<u8>,
    size: Size,
    kind: NeighborhoodKind,
    covered: int,
) -> Seq<u8> {
    Seq::new(
        cells.len(),
        |i: int|
            if i < covered {
                next_state(rule, cells, size, kind, i)
            } else {
                cells[i]
            },
    )
}

/// The changes over the indices `[start, end)`: a pair `(i, s)` for each
/// index whose next state `s` differs from its current one, by increasing
/// index.
pub open spec fn slice_diff<R: TransitionRule>(
    rule: R,
    cells: Seq<u8>,
    size: Size,
    kind: NeighborhoodKind,
    start: int,
    end: int,
) -> Seq<(usize, u8)>
    decreases end - start,
{
    if end <= start {
        Seq::empty()
    } else {
        let prev = slice_diff(rule, cells, size, kind, start, end - 1);
        let s = next_state(rule, cells, size, kind, end - 1);
        if s != cells[end - 1] {
            prev.push(((end - 1) as usize, s))
        } else {
            prev
        }
    }
}

/// The states after writing each pair of `diff` in order.
pub open spec fn apply_diff(cells: Seq<u8>, diff: Seq<(usize, u8)>) -> Seq<u8>
    decreases diff.len(),
{
    if diff.len() == 0 {
        cells
    } else {
        apply_diff(cells, diff.drop_last()).update(diff.last().0 as int, diff.last().1)
    }
}

/// The generation a tick under `schedule` produces.
pub open spec fn ticked<R: TransitionRule>(
    rule: R,
    cells: Seq<u8>,
    size: Size,
    kind: NeighborhoodKind,
    schedule: Schedule,
) -> Seq<u8> {
    advanced(rule, cells, size, kind, schedule.covered(cells.len()))
}

/// Every index in a slice's diff lies in the slice.
pub proof fn lemma_slice_diff_in_slice<R: TransitionRule>(
    rule: R,
    cells: Seq<u8>,
    size: Size,
    kind: NeighborhoodKind,
    start: int,
    end: int,
)
    requires
        0 <= start,
        end <= usize::MAX,
    ensures
        forall|k: int|
            0 <= k < slice_diff(rule, cells, size, kind, start, end).len() ==> start <= (
            #[trigger] slice_diff(rule, cells, size, kind, start, end)[k]).0 < end,
        slice_diff(rule, cells, size, kind, start, end).len() <= if end > start {
            end - start
        } else {
            0
        },
    decreases end - start,
{
    if end > start {
        lemma_slice_diff_in_slice(rule, cells, size, kind, start, end - 1);
    }
}

/// The diffs of two adjacent slices, one after the other, are the diff of
/// their union.
pub proof fn lemma_slice_diff_concat<R: TransitionRule>(
    rule: R,
    cells: Seq<u8>,
    size: Size,
    kind: NeighborhoodKind,
    a: int,
    b: int,
    c: int,
)
    requires
        a <= b <= c,
    ensures
        slice_diff(rule, cells, size, kind, a, b) + slice_diff(rule, cells, size, kind, b, c)
            == slice_diff(rule, cells, size, kind, a, c),
    decreases c - b,
{
    if c == b {
        assert(slice_diff(rule, cells, size, kind, a, b) + slice_diff(
            rule,
            cells,
            size,
            kind,
            b,
            c,
        ) =~= slice_diff(rule, cells, size, kind, a, b));
    } else {
        lemma_slice_diff_concat(rule, cells, size, kind, a, b, c - 1);
        let left = slice_diff(rule, cells, size, kind, a, b);
        let right = slice_diff(rule, cells, size, kind, b, c - 1);
        let s = next_state(rule, cells, size, kind, c - 1);
        if s != cells[c - 1] {
            assert(left + right.push(((c - 1) as usize, s)) =~= (left + right).push(
                ((c - 1) as usize, s),
            ));
        }
    }
}

/// Applying the diff of `[0, m)` evaluates exactly the first `m` cells.
pub proof fn lemma_apply_prefix_diff<R: TransitionRule>(
    rule: R,
    cells: Seq<u8>,
    size: Size,
    kind: NeighborhoodKind,
    m: int,
)
    requires
        0 <= m <= cells.len(),
        cells.len() <= usize::MAX,
    ensures
        apply_diff(cells, slice_diff(rule, cells, size, kind, 0, m)) == advanced(
            rule,
            cells,
            size,
            kind,
            m,
        ),
    decreases m,
{
    if m == 0 {
        assert(cells =~= advanced(rule, cells, size, kind, 0));
    } else {
        lemma_apply_prefix_diff(rule, cells, size, kind, m - 1);
        let s = next_state(rule, cells, size, kind, m - 1);
        let before = advanced(rule, cells, size, kind, m - 1);
        let after = advanced(rule, cells, size, kind, m);
        if s != cells[m - 1] {
            let d = slice_diff(rule, cells, size, kind, 0, m);
            assert(d.drop_last() =~= slice_diff(rule, cells, size, kind, 0, m - 1));
            assert(before.update(m - 1, s) =~= after);
        } else {
            assert(before =~= after);
        }
    }
}

/// Synchronous correctness: a tick's result does not depend on how the
/// index space is divided among workers, as long as every index is
/// evaluated; it is then exactly the next generation. Every index is
/// evaluated when the remainder goes to the last worker, or when the
/// worker count divides the cell count.
pub proof fn lemma_tick_independent_of_workers<R: TransitionRule>(
    rule: R,
    cells: Seq<u8>,
    size: Size,
    kind: NeighborhoodKind,
    first: Schedule,
    second: Schedule,
)
    requires
        first.wf(),
        second.wf(),
        first.remainder == Remainder::LastWorker || cells.len() as int % (first.workers as int) == 0,
        second.remainder == Remainder::LastWorker || cells.len() as int % (second.workers as int) == 0,
    ensures
        ticked(rule, cells, size, kind, first) == ticked(rule, cells, size, kind, second),
        ticked(rule, cells, size, kind, first) == next_generation(rule, cells, size, kind),
{
    let n = cells.len() as int;
    lemma_fundamental_div_mod(n, first.workers as int);
    lemma_fundamental_div_mod(n, second.workers as int);
    assert((n / first.workers as int) * first.workers == first.workers * (n
        / first.workers as int)) by (nonlinear_arith);
    assert((n / second.workers as int) * second.workers == second.workers * (n
        / second.workers as int)) by (nonlinear_arith);
    assert(first.covered(cells.len()) == cells.len());
    assert(second.covered(cells.len()) == cells.len());
    assert(ticked(rule, cells, size, kind, first) =~= next_generation(rule, cells, size, kind));
    assert(ticked(rule, cells, size, kind, second) =~= next_generation(rule, cells, size, kind));
}

/// Steady state: once a grid is a fixed point of the rule, every slice's
/// diff is empty and a tick under any schedule leaves the grid unchanged.
pub proof fn lemma_fixed_point_is_steady<R: TransitionRule>(
    rule: R,
    cells: Seq<u8>,
    size: Size,
    kind: NeighborhoodKind,
    schedule: Schedule,
    start: int,
    end: int,
)
    requires
        next_generation(rule, cells, size, kind) == cells,
        0 <= start,
        end <= cells.len(),
    ensures
        slice_diff(rule, cells, size, kind, start, end) == Seq::<(usize, u8)>::empty(),
        ticked(rule, cells, size, kind, schedule) == cells,
    decreases end - start,
{
    if end > start {
        assert(next_generation(rule, cells, size, kind)[end - 1] == cells[end - 1]);
        lemma_fixed_point_is_steady(rule, cells, size, kind, schedule, start, end - 1);
    }
    assert forall|i: int| 0 <= i < cells.len() implies next_state(
        rule,
        cells,
        size,
        kind,
        i,
    ) == cells[i] by {
        assert(next_generation(rule, cells, size, kind)[i] == cells[i]);
    }
    assert(ticked(rule, cells, size, kind, schedule) =~= cells);
}

impl Automata {
    /// The diff of the indices `[start, end)` against the current
    /// generation. Only reads the grid, so several slices may be evaluated
    /// at once against the same generation.
    pub fn evaluate_slice<R: TransitionRule>(
        &self,
        rule: &R,
        kind: NeighborhoodKind,
        start: usize,
        end: usize,
    ) -> (r: Vec<(usize, u8)>)
        requires
            self.wf(),
            start <= end <= self@.len(),
        ensures
            r@ == slice_diff(*rule, self@, self.spec_size(), kind, start as int, end as int),
    {
        let size = self.size();
        let mut r: Vec<(usize, u8)> = Vec::new();
        let mut i: usize = start;
        while i < end
            invariant
                self.wf(),
                size == self.spec_size(),
                start <= i <= end <= self@.len(),
                r@ == slice_diff(*rule, self@, size, kind, start as int, i as int),
            decreases end - i,
        {
            let p = size.to_point(i);
            let nb = self.neighborhood(p, kind);
            let own = self.get(i);
            let s = rule.next(own, &nb);
            if s != own {
                r.push((i, s));
            }
            i = i + 1;
        }
        r
    }

    /// The diff of one tick under `schedule`: the slices' diffs in worker
    /// order, all against the current generation.
    pub fn compute_diff<R: TransitionRule>(
        &self,
        rule: &R,
        kind: NeighborhoodKind,
        schedule: Schedule,
    ) -> (r: Vec<(usize, u8)>)
        requires
            self.wf(),
            schedule.wf(),
        ensures
            r@ == slice_diff(
                *rule,
                self@,
                self.spec_size(),
                kind,
                0,
                schedule.covered(self@.len()),
            ),
            0 <= schedule.covered(self@.len()) <= self@.len(),
    {
        let n = self.len();
        let slices = schedule.slices(n);
        let mut r: Vec<(usize, u8)> = Vec::new();
        let mut t: usize = 0;
        while t < slices.len()
            invariant
                self.wf(),
                n == self@.len(),
                slices@.len() == schedule.workers,
                forall|j: int| 0 <= j < slices@.len() ==> (#[trigger] slices@[j]).0 <= slices@[j].1,
                forall|j: int|
                    0 < j < slices@.len() ==> (#[trigger] slices@[j]).0 == slices@[j - 1].1,
                slices@[0].0 == 0,
                forall|j: int|
                    0 <= j < slices@.len() ==> (#[trigger] slices@[j]).1 <= schedule.covered(
                        n as nat,
                    ),
                slices@[slices@.len() - 1].1 == schedule.covered(n as nat),
                schedule.covered(n as nat) <= n,
                schedule.wf(),
                t <= slices@.len(),
                t == 0 ==> r@.len() == 0,
                t > 0 ==> r@ == slice_diff(
                    *rule,
                    self@,
                    self.spec_size(),
                    kind,
                    0,
                    slices@[t - 1].1 as int,
                ),
            decreases slices@.len() - t,
        {
            let (start, end) = slices[t];
            proof {
                if t > 0 {
                    assert(slices@[t as int].0 == slices@[t - 1].1);
                }
            }
            let mut part = self.evaluate_slice(rule, kind, start, end);
            let ghost before = r@;
            let ghost added = part@;
            r.append(&mut part);
            proof {
                lemma_slice_diff_concat(
                    *rule,
                    self@,
                    self.spec_size(),
                    kind,
                    0,
                    start as int,
                    end as int,
                );
                if t == 0 {
                    assert(before + added =~= added);
                    assert(slice_diff(*rule, self@, self.spec_size(), kind, 0, 0) =~= Seq::<
                        (usize, u8),
                    >::empty());
                }
            }
            t = t + 1;
        }
        r
    }

    /// Writes every pair of `diff` in order, provided every index is in
    /// range; otherwise writes nothing and returns `false`.
    pub fn apply(&mut self, diff: &Vec<(usize, u8)>) -> (r: bool)
        requires
            old(self).wf(),
        ensures
            final(self).wf(),
            final(self).spec_size() == old(self).spec_size(),
            r == (forall|k: int| 0 <= k < diff@.len() ==> (#[trigger] diff@[k]).0 < old(self)@.len()),
            r ==> final(self)@ == apply_diff(old(self)@, diff@),
            !r ==> final(self)@ == old(self)@,
    {
        let n = self.len();
        let ghost start = self@;
        let ghost size = self.spec_size();
        let mut k: usize = 0;
        while k < diff.len()
            invariant
                self.wf(),
                self@ == start,
                self.spec_size() == size,
                n == self@.len(),
                k <= diff@.len(),
                forall|j: int| 0 <= j < k ==> (#[trigger] diff@[j]).0 < n,
            decreases diff@.len() - k,
        {
            if diff[k].0 >= n {
                return false;
            }
            k = k + 1;
        }
        let mut k: usize = 0;
        while k < diff.len()
            invariant
                self.wf(),
                self.spec_size() == size,
                n == self@.len(),
                k <= diff@.len(),
                forall|j: int| 0 <= j < diff@.len() ==> (#[trigger] diff@[j]).0 < n,
                self@ == apply_diff(start, diff@.subrange(0, k as int)),
            decreases diff@.len() - k,
        {
            let (i, s) = diff[k];
            self.set(i, s);
            proof {
                assert(diff@.subrange(0, k + 1).drop_last() =~= diff@.subrange(0, k as int));
            }
            k = k + 1;
        }
        assert(diff@.subrange(0, k as int) =~= diff@);
        true
    }

    /// One synchronous tick: computes the diff of the indices the schedule
    /// covers against the current generation, then applies it. Indices the
    /// schedule skips keep their state.
    pub fn tick<R: TransitionRule>(&mut self, rule: &R, kind: NeighborhoodKind, schedule: Schedule)
        requires
            old(self).wf(),
            schedule.wf(),
        ensures
            final(self).wf(),
            final(self).spec_size() == old(self).spec_size(),
            final(self)@ == ticked(*rule, old(self)@, old(self).spec_size(), kind, schedule),
    {
        let ghost cells = self@;
        let ghost size = self.spec_size();
        let diff = self.compute_diff(rule, kind, schedule);
        proof {
            let m = schedule.covered(cells.len());
            lemma_cell_count_bound(size);
            lemma_slice_diff_in_slice(*rule, cells, size, kind, 0, m);
            lemma_apply_prefix_diff(*rule, cells, size, kind, m);
        }
        let applied = self.apply(&diff);
        assert(applied);
    }
}

} // verus!
