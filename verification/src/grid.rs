//! The grid of cells and the lattice of corner heights that the cells
//! share.

use vstd::prelude::*;
use crate::geometry::{cell_center, PlanarPoint, Point};
use crate::interp::{
    blended_height, calc_weight, corner_weight, in_hexagon, lemma_edge_distances,
    lemma_weights_sum_positive, weight_sum, weighted_sum, Elevation, Ratio, HEIGHT_UNIT_DEN,
    HEIGHT_UNIT_NUM, MAX_WEIGHT,
};
use crate::topology::{
    corner_index, lemma_corner_index_in_lattice, lemma_corner_sharing,
    lemma_neighbors_are_mutual, neighbor_index, neighbor_place,
    pair_model, ref_model,
};

verus! {

/// Most cells a grid may hold: with at most 102 vertices to a cell, the
/// vertices of the whole mesh can then be counted in 32 bits.
pub const MAX_CELLS: usize = 40_000_000;

/// Height that every corner has in a new grid.
pub const DEFAULT_HEIGHT: i32 = 2;

/// One hexagonal tile.
#[derive(Clone, Copy, Debug, PartialEq, Eq)]
pub struct HexCell {
    /// The cell next to this one in each of the six directions, as column
    /// and row, or `None` where the grid ends.
    pub neighbor_cell_refs: [Option<(usize, usize)>; 6],
    /// Lattice places of the six corner heights, in the order of the corners.
    pub height_refs: [(usize, usize); 6],
    /// Kind of terrain.
    pub terrain: u32,
    /// Centre of the cell.
    pub position: PlanarPoint,
}

impl HexCell {
    /// The cell is the one that belongs in column `col` and row `row` of a
    /// grid of `cols` columns and `rows` rows.
    pub open spec fn wf_at(self, col: int, row: int, cols: int, rows: int) -> bool {
        &&& self.position@ == cell_center(col, row)
        &&& forall|i: int|
            0 <= i < 6 ==> pair_model(#[trigger] self.height_refs[i]) == corner_index(
                col,
                row,
                cols,
                i,
            )
        &&& forall|d: int|
            0 <= d < 6 ==> ref_model(#[trigger] self.neighbor_cell_refs[d]) == neighbor_index(
                col,
                row,
                d,
                cols,
                rows,
            )
    }
}

/// A grid of hexagonal cells over a shared lattice of corner heights.
#[derive(Clone, Debug, PartialEq, Eq)]
pub struct HexGrid {
    /// The cells, by column and then by row.
    pub cells: Vec<Vec<HexCell>>,
    /// The corner heights, by lattice column and then by lattice row.
    pub heights: Vec<Vec<i32>>,
}

/// The six heights that the references `refs` pick from the lattice.
pub open spec fn corner_heights(heights: Seq<Vec<i32>>, refs: Seq<(usize, usize)>) -> Seq<i32> {
    Seq::new(6, |i: int| heights[refs[i].0 as int][refs[i].1 as int])
}

impl HexGrid {
    /// Number of columns.
    pub open spec fn columns(&self) -> int {
        self.cells.len() as int
    }

    /// Number of rows.
    pub open spec fn rows(&self) -> int {
        if self.cells.len() == 0 {
            0
        } else {
            self.cells[0].len() as int
        }
    }

    /// Column `a`, row `b` names a cell of the grid.
    pub open spec fn in_grid(&self, a: int, b: int) -> bool {
        0 <= a < self.columns() && 0 <= b < self.rows()
    }

    /// Lattice column `i`, lattice row `j` names a corner height of the grid.
    pub open spec fn in_lattice(&self, i: int, j: int) -> bool {
        0 <= i < 2 * self.columns() && 0 <= j <= self.rows()
    }

    /// The lattice is twice as wide as the grid and one row higher.
    pub open spec fn lattice_wf(&self) -> bool {
        &&& self.heights.len() == 2 * self.columns()
        &&& forall|i: int|
            0 <= i < self.heights.len() ==> (#[trigger] self.heights[i]).len() == self.rows() + 1
    }

    /// Every column has as many cells as the grid has rows, and every cell
    /// is the one that belongs in its place.
    pub open spec fn cells_wf(&self) -> bool {
        &&& self.columns() * self.rows() <= MAX_CELLS
        &&& forall|a: int| 0 <= a < self.columns() ==> (#[trigger] self.cells[a]).len() == self.rows()
        &&& forall|a: int, b: int|
            self.in_grid(a, b) ==> (#[trigger] self.cells[a][b]).wf_at(
                a,
                b,
                self.columns(),
                self.rows(),
            )
    }

    /// The grid is well formed.
    pub open spec fn wf(&self) -> bool {
        self.lattice_wf() && self.cells_wf()
    }

    /// The references of `cell` name corner heights of this grid.
    pub open spec fn holds_refs_of(&self, cell: HexCell) -> bool {
        forall|i: int|
            0 <= i < 6 ==> (#[trigger] cell.height_refs[i]).0 < self.heights.len()
                && cell.height_refs[i].1 < self.heights[cell.height_refs[i].0 as int].len()
    }

    /// The cell at the place `at`.
    pub open spec fn cell_at(&self, at: (int, int)) -> HexCell {
        self.cells[at.0][at.1]
    }

    /// Place of the neighbour that the cell in column `a` and row `b` holds
    /// in direction `d`.
    pub open spec fn neighbor_of(&self, a: int, b: int, d: int) -> (int, int) {
        pair_model(self.cells[a][b].neighbor_cell_refs[d].unwrap())
    }

    /// Elevation of the lattice point `p` as the cell `cell` sees it.
    pub open spec fn height_at(&self, p: Point, cell: HexCell) -> Ratio {
        blended_height(p.minus(cell.position@), corner_heights(self.heights@, cell.height_refs@))
    }

    /// Elevation of the lattice point `point` as `cell` sees it: the weighted
    /// mean of the heights of the cell's six corners, in vertical lattice
    /// steps.
    pub fn calc_height(&self, point: PlanarPoint, cell: &HexCell) -> (r: Elevation)
        requires
            self.holds_refs_of(*cell),
            in_hexagon(point@.minus(cell.position@)),
        ensures
            r@ == self.height_at(point@, *cell),
            r@.den > 0,
    {
        let dx: i64 = point.x as i64 - cell.position.x as i64;
        let dz: i64 = point.z as i64 - cell.position.z as i64;
        proof {
            lemma_edge_distances(point@.minus(cell.position@));
        }
        let x = PlanarPoint { x: dx as i32, z: dz as i32 };
        let ghost hs = corner_heights(self.heights@, cell.height_refs@);
        let mut sum: i64 = 0;
        let mut height: i64 = 0;
        for i in 0..6usize
            invariant
                self.holds_refs_of(*cell),
                in_hexagon(x@),
                hs == corner_heights(self.heights@, cell.height_refs@),
                sum == weight_sum(x@, i as int),
                height == weighted_sum(x@, hs, i as int),
                0 <= sum <= i * MAX_WEIGHT,
                -(i * MAX_WEIGHT * 0x8000_0000) <= height <= i * MAX_WEIGHT * 0x8000_0000,
        {
            let weight: i64 = calc_weight(i, x);
            sum += weight;
            let (height_x, height_z) = cell.height_refs[i];
            let h: i64 = self.heights[height_x][height_z] as i64;
            assert(-(MAX_WEIGHT * 0x8000_0000) <= h * weight <= MAX_WEIGHT * 0x8000_0000)
                by (nonlinear_arith)
                requires
                    0 <= weight <= MAX_WEIGHT,
                    -0x8000_0000 <= h <= 0x8000_0000,
            ;
            assert(h * weight == corner_weight(i as int, x@) * hs[i as int]) by {
                assert(hs[i as int] == h);
                assert(h * weight == weight * h) by (nonlinear_arith);
            }
            height += h * weight;
        }
        proof {
            lemma_weights_sum_positive(x@);
        }
        Elevation { num: HEIGHT_UNIT_NUM * height, den: HEIGHT_UNIT_DEN * sum }
    }

    /// The corner references of a cell of a well-formed grid name places of
    /// the grid's lattice.
    pub proof fn lemma_refs_in_lattice(&self, x: int, z: int)
        requires
            self.wf(),
            self.in_grid(x, z),
        ensures
            self.holds_refs_of(self.cells[x][z]),
            forall|k: int|
                0 <= k < 6 ==> self.in_lattice(
                    (#[trigger] self.cells[x][z].height_refs[k]).0 as int,
                    self.cells[x][z].height_refs[k].1 as int,
                ),
    {
        let cell = self.cells[x][z];
        assert(cell.wf_at(x, z, self.columns(), self.rows()));
        assert forall|k: int| 0 <= k < 6 implies self.in_lattice(
            (#[trigger] cell.height_refs[k]).0 as int,
            cell.height_refs[k].1 as int,
        ) by {
            assert(pair_model(cell.height_refs[k]) == corner_index(x, z, self.columns(), k));
            lemma_corner_index_in_lattice(x, z, self.columns(), k);
        }
    }

    /// In a well-formed grid the neighbour that a cell holds in direction
    /// `d` is the cell one step in that direction, and holds the first cell
    /// in the opposite direction.
    pub proof fn lemma_links_are_mutual(&self, a: int, b: int, d: int)
        requires
            self.wf(),
            self.in_grid(a, b),
            0 <= d < 6,
            self.cells[a][b].neighbor_cell_refs[d] is Some,
        ensures
            self.neighbor_of(a, b, d) == neighbor_place(a, b, d),
            self.in_grid(neighbor_place(a, b, d).0, neighbor_place(a, b, d).1),
            self.cell_at(self.neighbor_of(a, b, d)).neighbor_cell_refs[(d + 3) % 6] == Some(
                (a as usize, b as usize),
            ),
    {
        let cell = self.cells[a][b];
        let n = neighbor_place(a, b, d);
        assert(cell.wf_at(a, b, self.columns(), self.rows()));
        assert(ref_model(cell.neighbor_cell_refs[d]) == neighbor_index(
            a,
            b,
            d,
            self.columns(),
            self.rows(),
        ));
        lemma_neighbors_are_mutual(a, b, d, self.columns(), self.rows());
        let other = self.cells[n.0][n.1];
        assert(other.wf_at(n.0, n.1, self.columns(), self.rows()));
        assert(ref_model(other.neighbor_cell_refs[(d + 3) % 6]) == neighbor_index(
            n.0,
            n.1,
            (d + 3) % 6,
            self.columns(),
            self.rows(),
        ));
    }

    /// In a well-formed grid a cell and the neighbour it holds in direction
    /// `d` refer to the same two corner heights along the edge between
    /// them.
    pub proof fn lemma_neighbors_share_corners(&self, a: int, b: int, d: int)
        requires
            self.wf(),
            self.in_grid(a, b),
            0 <= d < 6,
            self.cells[a][b].neighbor_cell_refs[d] is Some,
        ensures
            self.cells[a][b].height_refs[d] == self.cell_at(
                self.neighbor_of(a, b, d),
            ).height_refs[(d + 4) % 6],
            self.cells[a][b].height_refs[(d + 1) % 6] == self.cell_at(
                self.neighbor_of(a, b, d),
            ).height_refs[(d + 3) % 6],
    {
        let cell = self.cells[a][b];
        let n = neighbor_place(a, b, d);
        self.lemma_links_are_mutual(a, b, d);
        assert(cell.wf_at(a, b, self.columns(), self.rows()));
        let other = self.cells[n.0][n.1];
        assert(other.wf_at(n.0, n.1, self.columns(), self.rows()));
        lemma_corner_sharing(a, b, d, self.columns(), self.rows());
        assert(pair_model(cell.height_refs[d]) == corner_index(a, b, self.columns(), d));
        assert(pair_model(cell.height_refs[(d + 1) % 6]) == corner_index(
            a,
            b,
            self.columns(),
            (d + 1) % 6,
        ));
        assert(pair_model(other.height_refs[(d + 4) % 6]) == corner_index(
            n.0,
            n.1,
            self.columns(),
            (d + 4) % 6,
        ));
        assert(pair_model(other.height_refs[(d + 3) % 6]) == corner_index(
            n.0,
            n.1,
            self.columns(),
            (d + 3) % 6,
        ));
    }
}

} // verus!
