//! Where the corners and the neighbours of a cell are: pure functions of a
//! cell's column and row, and what holds of them.

use vstd::prelude::*;
use vstd::arithmetic::div_mod::{lemma_mod_bound, lemma_small_mod};
use crate::geometry::{cell_center, neighbor_step};

verus! {

/// Lattice place of corner `i` of the cell in column `col` and row `row` of
/// a grid `total_cols` wide.  The lattice is twice as wide as the grid and
/// closes on itself along its columns.
pub open spec fn corner_index(col: int, row: int, total_cols: int, i: int) -> (int, int) {
    let x = 2 * (col % total_cols) + row % 2;
    let width = 2 * total_cols;
    if i == 0 {
        ((x + 1) % width, row + 1)
    } else if i == 1 {
        (x, row + 1)
    } else if i == 2 {
        (x, row)
    } else if i == 3 {
        ((x + 1) % width, row)
    } else if i == 4 {
        ((x + 2) % width, row)
    } else {
        ((x + 2) % width, row + 1)
    }
}

/// Column and row of the cell next to the one in column `col` and row `row`
/// in direction `d`, without regard to where the grid ends.
pub open spec fn neighbor_place(col: int, row: int, d: int) -> (int, int) {
    let odd = row % 2;
    if d == 0 {
        (col - 1 + odd, row + 1)
    } else if d == 1 {
        (col - 1, row)
    } else if d == 2 {
        (col - 1 + odd, row - 1)
    } else if d == 3 {
        (col + odd, row - 1)
    } else if d == 4 {
        (col + 1, row)
    } else {
        (col + odd, row + 1)
    }
}

/// The neighbour in direction `d` of the cell in column `col` and row `row`
/// of a grid of `cols` columns and `rows` rows, if the grid has one.
pub open spec fn neighbor_index(col: int, row: int, d: int, cols: int, rows: int) -> Option<
    (int, int),
> {
    let n = neighbor_place(col, row, d);
    if 0 <= n.0 < cols && 0 <= n.1 < rows {
        Some(n)
    } else {
        None
    }
}

/// A pair of indices as mathematical integers.
pub open spec fn pair_model(r: (usize, usize)) -> (int, int) {
    (r.0 as int, r.1 as int)
}

/// A neighbour reference as mathematical integers.
pub open spec fn ref_model(r: Option<(usize, usize)>) -> Option<(int, int)> {
    match r {
        Some(p) => Some(pair_model(p)),
        None => None,
    }
}

/// A column and a row of a grid are no larger than the number of its cells.
pub proof fn lemma_place_within_cells(x: int, z: int, cols: int, rows: int)
    requires
        0 <= x < cols,
        0 <= z < rows,
    ensures
        x < cols * rows,
        z < cols * rows,
        x * rows + z < cols * rows,
{
    assert(cols * rows >= cols && cols * rows >= rows && x * rows + z < cols * rows)
        by (nonlinear_arith)
        requires
            0 <= x < cols,
            0 <= z < rows,
    ;
}

/// Every corner of a cell of the grid has a place in the lattice.
pub proof fn lemma_corner_index_in_lattice(col: int, row: int, cols: int, i: int)
    requires
        0 <= col < cols,
        0 <= row,
        0 <= i < 6,
    ensures
        0 <= corner_index(col, row, cols, i).0 < 2 * cols,
        row <= corner_index(col, row, cols, i).1 <= row + 1,
{
    lemma_small_mod(col as nat, cols as nat);
    let x = 2 * col + row % 2;
    lemma_mod_bound(x + 1, 2 * cols);
    lemma_mod_bound(x + 2, 2 * cols);
}

/// The cell next to a cell in direction `d` has that cell next to it in the
/// opposite direction.
pub proof fn lemma_places_mutual(col: int, row: int, d: int)
    requires
        0 <= d < 6,
    ensures
        neighbor_place(
            neighbor_place(col, row, d).0,
            neighbor_place(col, row, d).1,
            (d + 3) % 6,
        ) == (col, row),
{
}

/// The neighbour in direction `d` is the cell whose centre lies one step in
/// that direction from this cell's centre.
pub proof fn lemma_neighbor_center(col: int, row: int, d: int)
    requires
        0 <= d < 6,
    ensures
        cell_center(neighbor_place(col, row, d).0, neighbor_place(col, row, d).1) == cell_center(
            col,
            row,
        ).plus(neighbor_step(d)),
{
}

/// Where a cell has a neighbour in direction `d`, that neighbour has the
/// cell as its neighbour in the opposite direction.
pub proof fn lemma_neighbors_are_mutual(col: int, row: int, d: int, cols: int, rows: int)
    requires
        0 <= col < cols,
        0 <= row < rows,
        0 <= d < 6,
        neighbor_index(col, row, d, cols, rows) is Some,
    ensures
        neighbor_index(
            neighbor_place(col, row, d).0,
            neighbor_place(col, row, d).1,
            (d + 3) % 6,
            cols,
            rows,
        ) == Some((col, row)),
{
    lemma_places_mutual(col, row, d);
}

/// Two cells that are neighbours across direction `d` name the same two
/// lattice places for the two corners they share: corners `d` and `d + 1` of
/// the one are corners `d + 4` and `d + 3` of the other.
pub proof fn lemma_corner_sharing(col: int, row: int, d: int, cols: int, rows: int)
    requires
        0 <= col < cols,
        0 <= row < rows,
        0 <= d < 6,
        neighbor_index(col, row, d, cols, rows) is Some,
    ensures
        corner_index(col, row, cols, d) == corner_index(
            neighbor_place(col, row, d).0,
            neighbor_place(col, row, d).1,
            cols,
            (d + 4) % 6,
        ),
        corner_index(col, row, cols, (d + 1) % 6) == corner_index(
            neighbor_place(col, row, d).0,
            neighbor_place(col, row, d).1,
            cols,
            (d + 3) % 6,
        ),
{
    let n = neighbor_place(col, row, d);
    let width = 2 * cols;
    let x = 2 * col + row % 2;
    let nx = 2 * n.0 + n.1 % 2;
    lemma_small_mod(col as nat, cols as nat);
    lemma_small_mod(n.0 as nat, cols as nat);
    lemma_small_mod(x as nat, width as nat);
    lemma_small_mod(nx as nat, width as nat);
    if x + 1 < width {
        lemma_small_mod((x + 1) as nat, width as nat);
    }
    if x + 2 < width {
        lemma_small_mod((x + 2) as nat, width as nat);
    }
}

} // verus!
