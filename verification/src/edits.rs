//! Reading and editing the corner heights: one height, or the six corners
//! of a cell at once.

use vstd::prelude::*;
use crate::coords::{round_half_away, round_ratio};
use crate::grid::HexGrid;

verus! {

/// Two lattices have the same numbers of columns and rows.
pub open spec fn same_shape(a: Seq<Vec<i32>>, b: Seq<Vec<i32>>) -> bool {
    &&& a.len() == b.len()
    &&& forall|i: int| 0 <= i < a.len() ==> (#[trigger] b[i]).len() == a[i].len()
}

/// How many of the first `n` references in `refs` name the place `at`.
pub open spec fn ref_count(refs: Seq<(usize, usize)>, at: (usize, usize), n: int) -> int
    decreases n,
{
    if n <= 0 {
        0
    } else {
        ref_count(refs, at, n - 1) + if refs[n - 1] == at {
            1int
        } else {
            0int
        }
    }
}

/// Sum of the heights that the first `n` references in `refs` name.
pub open spec fn height_total(heights: Seq<Vec<i32>>, refs: Seq<(usize, usize)>, n: int) -> int
    decreases n,
{
    if n <= 0 {
        0
    } else {
        height_total(heights, refs, n - 1) + heights[refs[n - 1].0 as int][refs[n - 1].1 as int]
    }
}

proof fn lemma_ref_count_grows(refs: Seq<(usize, usize)>, at: (usize, usize), m: int, n: int)
    requires
        0 <= m <= n,
    ensures
        0 <= ref_count(refs, at, m) <= ref_count(refs, at, n) <= n,
        m >= 1 && refs[m - 1] == at ==> ref_count(refs, at, m - 1) < ref_count(refs, at, n),
    decreases n,
{
    if m < n {
        lemma_ref_count_grows(refs, at, m, n - 1);
    } else if m >= 1 {
        lemma_ref_count_grows(refs, at, m - 1, m - 1);
    }
}

impl HexGrid {
    /// The corner height at lattice column `i`, lattice row `j`.
    pub fn get_height(&self, i: usize, j: usize) -> (h: i32)
        requires
            i < self.heights.len(),
            j < self.heights[i as int].len(),
        ensures
            h == self.heights[i as int][j as int],
    {
        self.heights[i][j]
    }

    /// Sets the corner height at lattice column `i`, lattice row `j`.  Every
    /// cell that has this corner sees the new height.
    pub fn set_height(&mut self, i: usize, j: usize, value: i32)
        requires
            i < old(self).heights.len(),
            j < old(self).heights[i as int].len(),
        ensures
            final(self).cells == old(self).cells,
            same_shape(old(self).heights@, final(self).heights@),
            old(self).wf() ==> final(self).wf(),
            forall|a: int, b: int|
                0 <= a < old(self).heights.len() && 0 <= b < old(self).heights[a].len()
                    ==> #[trigger] final(self).heights[a][b] == (if a == i && b == j {
                    value
                } else {
                    old(self).heights[a][b]
                }),
    {
        self.heights[i][j] = value;
    }

    /// The corner height at the lattice place `at`.
    pub open spec fn height_of(&self, at: (usize, usize)) -> int {
        self.heights[at.0 as int][at.1 as int] as int
    }

    /// Whether `delta` can be added to the six corners of the cell in column
    /// `x` and row `z` without leaving the range of a height: each place
    /// takes `delta` once for each corner of the cell that names it.
    pub open spec fn adjust_in_range(&self, x: int, z: int, delta: int) -> bool {
        let refs = self.cells[x][z].height_refs@;
        forall|k: int|
            0 <= k < 6 ==> i32::MIN <= self.height_of(#[trigger] refs[k]) + delta * ref_count(
                refs,
                refs[k],
                6,
            ) <= i32::MAX
    }

    /// Tells whether `adjust_cell` may be called with these arguments.
    pub fn adjust_fits(&self, x: usize, z: usize, delta: i32) -> (fits: bool)
        requires
            self.wf(),
            self.in_grid(x as int, z as int),
        ensures
            fits == self.adjust_in_range(x as int, z as int, delta as int),
    {
        proof {
            self.lemma_refs_in_lattice(x as int, z as int);
        }
        let refs = self.cells[x][z].height_refs;
        let mut fits = true;
        for k in 0..6usize
            invariant
                self.wf(),
                self.in_grid(x as int, z as int),
                refs == self.cells[x as int][z as int].height_refs,
                self.holds_refs_of(self.cells[x as int][z as int]),
                fits == (forall|m: int|
                    0 <= m < k ==> i32::MIN <= self.height_of(#[trigger] refs@[m]) + delta
                        * ref_count(refs@, refs@[m], 6) <= i32::MAX),
        {
            let mut count: i64 = 0;
            for m in 0..6usize
                invariant
                    k < 6,
                    count == ref_count(refs@, refs[k as int], m as int),
                    0 <= count <= m,
            {
                if refs[m].0 == refs[k].0 && refs[m].1 == refs[k].1 {
                    count += 1;
                }
            }
            let h: i64 = self.heights[refs[k].0][refs[k].1] as i64;
            assert(-0x4_0000_0000 <= (delta as i64) * count <= 0x4_0000_0000)
                by (nonlinear_arith)
                requires
                    0 <= count <= 6,
                    -0x8000_0000 <= delta <= 0x8000_0000,
            ;
            let sum: i64 = h + (delta as i64) * count;
            if sum < i32::MIN as i64 || sum > i32::MAX as i64 {
                fits = false;
            }
        }
        fits
    }

    /// Adds `delta` to each of the six corners of the cell in column `x` and
    /// row `z`.  A lattice place that the cell names for more than one of
    /// its corners, as happens in a grid one column wide, takes `delta` once
    /// for each.
    pub fn adjust_cell(&mut self, x: usize, z: usize, delta: i32)
        requires
            old(self).wf(),
            old(self).in_grid(x as int, z as int),
            old(self).adjust_in_range(x as int, z as int, delta as int),
        ensures
            final(self).wf(),
            final(self).cells == old(self).cells,
            same_shape(old(self).heights@, final(self).heights@),
            forall|a: int, b: int|
                old(self).in_lattice(a, b) ==> #[trigger] final(self).heights[a][b] == old(
                    self,
                ).heights[a][b] + delta * ref_count(
                    old(self).cells[x as int][z as int].height_refs@,
                    (a as usize, b as usize),
                    6,
                ),
    {
        proof {
            self.lemma_refs_in_lattice(x as int, z as int);
        }
        let refs = self.cells[x][z].height_refs;
        for k in 0..6usize
            invariant
                old(self).wf(),
                old(self).in_grid(x as int, z as int),
                old(self).adjust_in_range(x as int, z as int, delta as int),
                old(self).holds_refs_of(old(self).cells[x as int][z as int]),
                refs == old(self).cells[x as int][z as int].height_refs,
                self.cells == old(self).cells,
                same_shape(old(self).heights@, self.heights@),
                forall|a: int, b: int|
                    old(self).in_lattice(a, b) ==> #[trigger] self.heights[a][b] == old(
                        self,
                    ).heights[a][b] + delta * ref_count(refs@, (a as usize, b as usize), k as int),
        {
            let (hx, hz) = refs[k];
            proof {
                let total = ref_count(refs@, refs[k as int], 6);
                let so_far = ref_count(refs@, refs[k as int], k as int);
                lemma_ref_count_grows(refs@, refs[k as int], k as int + 1, 6);
                lemma_ref_count_grows(refs@, refs[k as int], k as int, 6);
                assert(refs[k as int] == (hx, hz));
                assert(old(self).in_lattice(hx as int, hz as int));
                let now = self.heights[hx as int][hz as int] as int;
                let first = old(self).heights[hx as int][hz as int] as int;
                let step = delta as int;
                assert(first + step * total == old(self).height_of(refs@[k as int]) + delta
                    * ref_count(refs@, refs@[k as int], 6));
                assert(i32::MIN <= now + step <= i32::MAX) by (nonlinear_arith)
                    requires
                        now == first + step * so_far,
                        0 <= so_far < total,
                        i32::MIN <= first <= i32::MAX,
                        i32::MIN <= first + step * total <= i32::MAX,
                ;
            }
            let ghost before = self.heights@;
            self.heights[hx][hz] += delta;
            proof {
                assert forall|a: int, b: int|
                    old(self).in_lattice(a, b) implies #[trigger] self.heights[a][b] == old(
                    self,
                ).heights[a][b] + delta * ref_count(
                    refs@,
                    (a as usize, b as usize),
                    k as int + 1,
                ) by {
                    assert(before[a][b] == old(self).heights[a][b] + delta * ref_count(
                        refs@,
                        (a as usize, b as usize),
                        k as int,
                    ));
                    if a == hx && b == hz {
                        assert(delta * (ref_count(refs@, (hx, hz), k as int) + 1) == delta
                            * ref_count(refs@, (hx, hz), k as int) + delta) by (nonlinear_arith);
                    }
                }
            }
        }
    }

    /// Sets the six corners of the cell in column `x` and row `z` to their
    /// mean, rounded to the nearest height, halves away from zero.
    pub fn flatten_cell(&mut self, x: usize, z: usize)
        requires
            old(self).wf(),
            old(self).in_grid(x as int, z as int),
        ensures
            final(self).wf(),
            final(self).cells == old(self).cells,
            same_shape(old(self).heights@, final(self).heights@),
            forall|a: int, b: int|
                old(self).in_lattice(a, b) ==> #[trigger] final(self).heights[a][b] == (
                if ref_count(
                    old(self).cells[x as int][z as int].height_refs@,
                    (a as usize, b as usize),
                    6,
                ) > 0 {
                    round_half_away(
                        height_total(
                            old(self).heights@,
                            old(self).cells[x as int][z as int].height_refs@,
                            6,
                        ),
                        6,
                    )
                } else {
                    old(self).heights[a][b] as int
                }),
    {
        proof {
            self.lemma_refs_in_lattice(x as int, z as int);
        }
        let refs = self.cells[x][z].height_refs;
        let mut sum: i64 = 0;
        for k in 0..6usize
            invariant
                self.wf(),
                self.in_grid(x as int, z as int),
                self.holds_refs_of(self.cells[x as int][z as int]),
                refs == self.cells[x as int][z as int].height_refs,
                sum == height_total(self.heights@, refs@, k as int),
                k * (i32::MIN as int) <= sum <= k * (i32::MAX as int),
        {
            let (hx, hz) = refs[k];
            sum += self.heights[hx][hz] as i64;
        }
        let mean: i32 = round_ratio(sum, 6) as i32;
        for k in 0..6usize
            invariant
                old(self).wf(),
                old(self).in_grid(x as int, z as int),
                old(self).holds_refs_of(old(self).cells[x as int][z as int]),
                refs == old(self).cells[x as int][z as int].height_refs,
                self.cells == old(self).cells,
                same_shape(old(self).heights@, self.heights@),
                forall|a: int, b: int|
                    old(self).in_lattice(a, b) ==> #[trigger] self.heights[a][b] == (if ref_count(
                        refs@,
                        (a as usize, b as usize),
                        k as int,
                    ) > 0 {
                        mean
                    } else {
                        old(self).heights[a][b]
                    }),
        {
            let (hx, hz) = refs[k];
            assert(refs[k as int] == (hx, hz));
            assert(old(self).in_lattice(hx as int, hz as int));
            let ghost before = self.heights@;
            self.heights[hx][hz] = mean;
            proof {
                assert forall|a: int, b: int|
                    old(self).in_lattice(a, b) implies #[trigger] self.heights[a][b] == (
                if ref_count(refs@, (a as usize, b as usize), k as int + 1) > 0 {
                    mean
                } else {
                    old(self).heights[a][b]
                }) by {
                    lemma_ref_count_grows(refs@, (a as usize, b as usize), k as int, 6);
                    assert(before[a][b] == (if ref_count(refs@, (a as usize, b as usize), k as int)
                        > 0 {
                        mean
                    } else {
                        old(self).heights[a][b]
                    }));
                }
            }
        }
    }
}

} // verus!
