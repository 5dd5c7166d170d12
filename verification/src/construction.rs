//! Making a grid: the cells first, each from its column and row alone, then
//! the links between neighbours.

use vstd::prelude::*;
use crate::geometry::{cell_center, PlanarPoint, INNER_RADIUS, OUTER_RADIUS, SE, SW, W};
use crate::grid::{HexCell, HexGrid, DEFAULT_HEIGHT, MAX_CELLS};
use crate::topology::{
    corner_index, lemma_place_within_cells, lemma_places_mutual, neighbor_index, neighbor_place,
    pair_model, ref_model,
};

verus! {

/// The cell whose turn in the linking pass makes the link of the cell in
/// column `a` and row `b` in direction `d`: the cell itself towards the
/// west and the two southern directions, else the neighbour.
spec fn link_maker(a: int, b: int, d: int) -> (int, int) {
    if d == 1 || d == 2 || d == 3 {
        (a, b)
    } else {
        neighbor_place(a, b, d)
    }
}

/// What the cell in column `a` and row `b` holds in direction `d` when the
/// linking pass is about to visit column `x`, row `z`.
spec fn link_before(a: int, b: int, d: int, x: int, z: int, cols: int, rows: int) -> Option<
    (int, int),
> {
    let m = link_maker(a, b, d);
    if m.0 < x || (m.0 == x && m.1 < z) {
        neighbor_index(a, b, d, cols, rows)
    } else {
        None
    }
}

/// The cells are those of a grid of `cols` columns and `rows` rows in which
/// the linking pass is about to visit column `x`, row `z`.
spec fn linked_until(cells: Seq<Vec<HexCell>>, x: int, z: int, cols: int, rows: int) -> bool {
    &&& cells.len() == cols
    &&& forall|a: int| 0 <= a < cols ==> (#[trigger] cells[a]).len() == rows
    &&& forall|a: int, b: int|
        0 <= a < cols && 0 <= b < rows ==> {
            &&& (#[trigger] cells[a][b]).position@ == cell_center(a, b)
            &&& cells[a][b].terrain == 0
        }
    &&& forall|a: int, b: int, i: int|
        0 <= a < cols && 0 <= b < rows && 0 <= i < 6 ==> pair_model(
            #[trigger] cells[a][b].height_refs[i],
        ) == corner_index(a, b, cols, i)
    &&& forall|a: int, b: int, d: int|
        0 <= a < cols && 0 <= b < rows && 0 <= d < 6 ==> ref_model(
            #[trigger] cells[a][b].neighbor_cell_refs[d],
        ) == link_before(a, b, d, x, z, cols, rows)
}

/// The first `count` columns of a grid of `cols` columns and `rows` rows
/// have been made, and no cell is linked yet.
spec fn created(cells: Seq<Vec<HexCell>>, count: int, cols: int, rows: int) -> bool {
    &&& cells.len() == count
    &&& forall|a: int| 0 <= a < count ==> (#[trigger] cells[a]).len() == rows
    &&& forall|a: int, b: int|
        0 <= a < count && 0 <= b < rows ==> {
            &&& (#[trigger] cells[a][b]).position@ == cell_center(a, b)
            &&& cells[a][b].terrain == 0
        }
    &&& forall|a: int, b: int, i: int|
        0 <= a < count && 0 <= b < rows && 0 <= i < 6 ==> pair_model(
            #[trigger] cells[a][b].height_refs[i],
        ) == corner_index(a, b, cols, i)
    &&& forall|a: int, b: int, d: int|
        0 <= a < count && 0 <= b < rows && 0 <= d < 6
            ==> (#[trigger] cells[a][b].neighbor_cell_refs[d]) is None
}

/// What the cell in column `a` and row `b` holds in direction `d` during
/// the turn of column `x`, row `z`, of which the flags say which links have
/// been dealt with: westwards, south-westwards, south-eastwards.
#[verifier::opaque]
spec fn link_during(
    a: int,
    b: int,
    d: int,
    x: int,
    z: int,
    w: bool,
    sw: bool,
    se: bool,
    cols: int,
    rows: int,
) -> Option<(int, int)> {
    let m = link_maker(a, b, d);
    let done = if d == 1 || d == 4 {
        w
    } else if d == 0 || d == 3 {
        sw
    } else {
        se
    };
    if m.0 < x || (m.0 == x && m.1 < z) || (m == (x, z) && done) {
        neighbor_index(a, b, d, cols, rows)
    } else {
        None
    }
}

/// The cells are those of a grid of `cols` columns and `rows` rows during
/// the turn of column `x`, row `z` in the linking pass.
#[verifier::opaque]
spec fn linked_during(
    cells: Seq<Vec<HexCell>>,
    x: int,
    z: int,
    w: bool,
    sw: bool,
    se: bool,
    cols: int,
    rows: int,
) -> bool {
    &&& cells.len() == cols
    &&& forall|a: int| 0 <= a < cols ==> (#[trigger] cells[a]).len() == rows
    &&& forall|a: int, b: int|
        0 <= a < cols && 0 <= b < rows ==> {
            &&& (#[trigger] cells[a][b]).position@ == cell_center(a, b)
            &&& cells[a][b].terrain == 0
        }
    &&& forall|a: int, b: int, i: int|
        0 <= a < cols && 0 <= b < rows && 0 <= i < 6 ==> pair_model(
            #[trigger] cells[a][b].height_refs[i],
        ) == corner_index(a, b, cols, i)
    &&& forall|a: int, b: int, d: int|
        0 <= a < cols && 0 <= b < rows && 0 <= d < 6 ==> ref_model(
            #[trigger] cells[a][b].neighbor_cell_refs[d],
        ) == link_during(a, b, d, x, z, w, sw, se, cols, rows)
}

/// `after` is `before` with one link made: the cell in column `nx` and row
/// `nz` is the neighbour in direction `d` of the cell in column `x` and row
/// `z`, and that cell its neighbour in the opposite direction.
spec fn link_effect(
    before: Seq<Vec<HexCell>>,
    after: Seq<Vec<HexCell>>,
    x: int,
    z: int,
    d: int,
    nx: int,
    nz: int,
) -> bool {
    &&& after.len() == before.len()
    &&& forall|a: int| 0 <= a < before.len() ==> (#[trigger] after[a]).len() == before[a].len()
    &&& forall|a: int, b: int|
        0 <= a < before.len() && 0 <= b < before[a].len() ==> {
            &&& (#[trigger] after[a][b]).position == before[a][b].position
            &&& after[a][b].terrain == before[a][b].terrain
            &&& after[a][b].height_refs == before[a][b].height_refs
        }
    &&& forall|a: int, b: int, k: int|
        0 <= a < before.len() && 0 <= b < before[a].len() && 0 <= k < 6
            ==> #[trigger] after[a][b].neighbor_cell_refs[k] == (if a == nx && b == nz && k == (d
            + 3) % 6 {
            Some((x as usize, z as usize))
        } else if a == x && b == z && k == d {
            Some((nx as usize, nz as usize))
        } else {
            before[a][b].neighbor_cell_refs[k]
        })
}

/// Makes the cell in column `nx` and row `nz` the neighbour in direction `d`
/// of the cell in column `x` and row `z`, and that cell its neighbour in the
/// opposite direction.
fn link(cells: &mut Vec<Vec<HexCell>>, x: usize, z: usize, d: usize, nx: usize, nz: usize)
    requires
        d < 6,
        x < old(cells).len(),
        z < old(cells)[x as int].len(),
        nx < old(cells).len(),
        nz < old(cells)[nx as int].len(),
    ensures
        link_effect(old(cells)@, final(cells)@, x as int, z as int, d as int, nx as int, nz as int),
{
    cells[x][z].neighbor_cell_refs[d] = Some((nx, nz));
    cells[nx][nz].neighbor_cell_refs[(d + 3) % 6] = Some((x, z));
}

proof fn lemma_turn_begins(cells: Seq<Vec<HexCell>>, x: int, z: int, cols: int, rows: int)
    requires
        linked_until(cells, x, z, cols, rows),
    ensures
        linked_during(cells, x, z, false, false, false, cols, rows),
{
    reveal(linked_during);
    reveal(link_during);
}

proof fn lemma_turn_ends(cells: Seq<Vec<HexCell>>, x: int, z: int, cols: int, rows: int)
    requires
        linked_during(cells, x, z, true, true, true, cols, rows),
    ensures
        linked_until(cells, x, z + 1, cols, rows),
{
    reveal(linked_during);
    reveal(link_during);
}

/// One link of the turn of column `x`, row `z` has been made.
proof fn lemma_link_made(
    before: Seq<Vec<HexCell>>,
    after: Seq<Vec<HexCell>>,
    x: int,
    z: int,
    d: int,
    w: bool,
    sw: bool,
    se: bool,
    cols: int,
    rows: int,
)
    requires
        0 <= x < cols,
        0 <= z < rows,
        cols <= usize::MAX,
        rows <= usize::MAX,
        d == 1 || d == 2 || d == 3,
        linked_during(before, x, z, w, sw, se, cols, rows),
        neighbor_index(x, z, d, cols, rows) is Some,
        link_effect(
            before,
            after,
            x,
            z,
            d,
            neighbor_place(x, z, d).0,
            neighbor_place(x, z, d).1,
        ),
    ensures
        linked_during(after, x, z, w || d == 1, sw || d == 3, se || d == 2, cols, rows),
{
    reveal(linked_during);
    let n = neighbor_place(x, z, d);
    assert forall|a: int, b: int, k: int| 0 <= a < cols && 0 <= b < rows && 0 <= k < 6 implies ref_model(
        #[trigger] after[a][b].neighbor_cell_refs[k],
    ) == link_during(a, b, k, x, z, w || d == 1, sw || d == 3, se || d == 2, cols, rows) by {
        lemma_link_made_at(
            a,
            b,
            k,
            x,
            z,
            d,
            w,
            sw,
            se,
            cols,
            rows,
            before[a][b].neighbor_cell_refs[k],
            after[a][b].neighbor_cell_refs[k],
        );
    }
}

/// What one link of the turn of column `x`, row `z` does to what the cell
/// in column `a` and row `b` holds in direction `k`.
proof fn lemma_link_made_at(
    a: int,
    b: int,
    k: int,
    x: int,
    z: int,
    d: int,
    w: bool,
    sw: bool,
    se: bool,
    cols: int,
    rows: int,
    held: Option<(usize, usize)>,
    holds: Option<(usize, usize)>,
)
    requires
        0 <= a < cols,
        0 <= b < rows,
        0 <= k < 6,
        0 <= x < cols,
        0 <= z < rows,
        cols <= usize::MAX,
        rows <= usize::MAX,
        d == 1 || d == 2 || d == 3,
        neighbor_index(x, z, d, cols, rows) is Some,
        ref_model(held) == link_during(a, b, k, x, z, w, sw, se, cols, rows),
        holds == (if a == neighbor_place(x, z, d).0 && b == neighbor_place(x, z, d).1 && k == (d
            + 3) % 6 {
            Some((x as usize, z as usize))
        } else if a == x && b == z && k == d {
            Some((neighbor_place(x, z, d).0 as usize, neighbor_place(x, z, d).1 as usize))
        } else {
            held
        }),
    ensures
        ref_model(holds) == link_during(
            a,
            b,
            k,
            x,
            z,
            w || d == 1,
            sw || d == 3,
            se || d == 2,
            cols,
            rows,
        ),
{
    reveal(link_during);
    lemma_places_mutual(x, z, d);
    lemma_places_mutual(a, b, k);
}

/// What leaving out one link of the turn of column `x`, row `z` means for
/// what the cell in column `a` and row `b` holds in direction `k`.
proof fn lemma_link_absent_at(
    a: int,
    b: int,
    k: int,
    x: int,
    z: int,
    d: int,
    w: bool,
    sw: bool,
    se: bool,
    cols: int,
    rows: int,
)
    requires
        0 <= a < cols,
        0 <= b < rows,
        0 <= k < 6,
        0 <= x < cols,
        0 <= z < rows,
        d == 1 || d == 2 || d == 3,
        neighbor_index(x, z, d, cols, rows) is None,
    ensures
        link_during(a, b, k, x, z, w, sw, se, cols, rows) == link_during(
            a,
            b,
            k,
            x,
            z,
            w || d == 1,
            sw || d == 3,
            se || d == 2,
            cols,
            rows,
        ),
{
    reveal(link_during);
    lemma_places_mutual(x, z, d);
    lemma_places_mutual(a, b, k);
}

/// One link of the turn of column `x`, row `z` is left out, because the
/// grid ends there.
proof fn lemma_link_absent(
    cells: Seq<Vec<HexCell>>,
    x: int,
    z: int,
    d: int,
    w: bool,
    sw: bool,
    se: bool,
    cols: int,
    rows: int,
)
    requires
        0 <= x < cols,
        0 <= z < rows,
        d == 1 || d == 2 || d == 3,
        linked_during(cells, x, z, w, sw, se, cols, rows),
        neighbor_index(x, z, d, cols, rows) is None,
    ensures
        linked_during(cells, x, z, w || d == 1, sw || d == 3, se || d == 2, cols, rows),
{
    reveal(linked_during);
    assert forall|a: int, b: int, k: int| 0 <= a < cols && 0 <= b < rows && 0 <= k < 6 implies ref_model(
        #[trigger] cells[a][b].neighbor_cell_refs[k],
    ) == link_during(a, b, k, x, z, w || d == 1, sw || d == 3, se || d == 2, cols, rows) by {
        lemma_link_absent_at(a, b, k, x, z, d, w, sw, se, cols, rows);
    }
}

/// The turn of the cell in column `x` and row `z` in the linking pass:
/// links it to the west, and to the two cells of the row before it that the
/// row's parity puts next to it.
fn link_cell(cells: &mut Vec<Vec<HexCell>>, x: usize, z: usize, cell_count_x: usize, cell_count_z: usize)
    requires
        x < cell_count_x,
        z < cell_count_z,
        linked_until(old(cells)@, x as int, z as int, cell_count_x as int, cell_count_z as int),
    ensures
        linked_until(
            final(cells)@,
            x as int,
            z as int + 1,
            cell_count_x as int,
            cell_count_z as int,
        ),
{
    let ghost cols = cell_count_x as int;
    let ghost rows = cell_count_z as int;
    let ghost xi = x as int;
    let ghost zi = z as int;
    proof {
        lemma_turn_begins(cells@, xi, zi, cols, rows);
        reveal(linked_during);
        assert(cells.len() == cols);
        assert(forall|a: int| 0 <= a < cols ==> (#[trigger] cells[a]).len() == rows);
    }
    let ghost start = cells@;
    if x > 0 {
        link(cells, x, z, W, x - 1, z);
        proof {
            lemma_link_made(start, cells@, xi, zi, 1, false, false, false, cols, rows);
        }
    } else {
        proof {
            lemma_link_absent(start, xi, zi, 1, false, false, false, cols, rows);
        }
    }
    let ghost west = cells@;
    assert(linked_during(west, xi, zi, true, false, false, cols, rows));
    assert(west.len() == cols && (forall|a: int|
        0 <= a < cols ==> (#[trigger] west[a]).len() == rows));
    if z > 0 {
        if z % 2 == 0 {
            link(cells, x, z, SW, x, z - 1);
            let ghost first = cells@;
            proof {
                lemma_link_made(west, first, xi, zi, 3, true, false, false, cols, rows);
            }
            if x > 0 {
                link(cells, x, z, SE, x - 1, z - 1);
                proof {
                    lemma_link_made(first, cells@, xi, zi, 2, true, true, false, cols, rows);
                }
            } else {
                proof {
                    lemma_link_absent(first, xi, zi, 2, true, true, false, cols, rows);
                }
            }
        } else {
            link(cells, x, z, SE, x, z - 1);
            let ghost first = cells@;
            proof {
                lemma_link_made(west, first, xi, zi, 2, true, false, false, cols, rows);
            }
            if x < cell_count_x - 1 {
                link(cells, x, z, SW, x + 1, z - 1);
                proof {
                    lemma_link_made(first, cells@, xi, zi, 3, true, false, true, cols, rows);
                }
            } else {
                proof {
                    lemma_link_absent(first, xi, zi, 3, true, false, true, cols, rows);
                }
            }
        }
    } else {
        proof {
            lemma_link_absent(west, xi, zi, 3, true, false, false, cols, rows);
            lemma_link_absent(west, xi, zi, 2, true, true, false, cols, rows);
        }
    }
    proof {
        lemma_turn_ends(cells@, xi, zi, cols, rows);
    }
}

impl HexGrid {
    /// Lattice places of the six corners of the cell in column `x` and row
    /// `z` of a grid `cell_count_x` wide.  They depend on nothing but these,
    /// so that cells which meet in a corner name the same place for it.
    pub fn get_height_refs(x: usize, z: usize, cell_count_x: usize, _cell_count_z: usize) -> (r: [(
        usize,
        usize,
    ); 6])
        requires
            cell_count_x > 0,
            2 * cell_count_x <= usize::MAX,
            z < usize::MAX,
        ensures
            forall|i: int|
                0 <= i < 6 ==> pair_model(#[trigger] r[i]) == corner_index(
                    x as int,
                    z as int,
                    cell_count_x as int,
                    i,
                ),
    {
        let left: usize = 2 * (x % cell_count_x) + z % 2;
        [
            ((left + 1) % (cell_count_x * 2), z + 1),
            (left, z + 1),
            (left, z),
            ((left + 1) % (cell_count_x * 2), z),
            ((left + 2) % (cell_count_x * 2), z),
            ((left + 2) % (cell_count_x * 2), z + 1),
        ]
    }

    /// The cell in column `x` and row `z`, not yet linked to any neighbour.
    pub fn create_cell(x: usize, z: usize, cell_count_x: usize, cell_count_z: usize) -> (r:
        HexCell)
        requires
            x <= MAX_CELLS,
            z <= MAX_CELLS,
            cell_count_x > 0,
            2 * cell_count_x <= usize::MAX,
        ensures
            r.position@ == cell_center(x as int, z as int),
            forall|i: int|
                0 <= i < 6 ==> pair_model(#[trigger] r.height_refs[i]) == corner_index(
                    x as int,
                    z as int,
                    cell_count_x as int,
                    i,
                ),
            forall|d: int| 0 <= d < 6 ==> (#[trigger] r.neighbor_cell_refs[d]) is None,
            r.terrain == 0,
    {
        let column: i32 = x as i32;
        let row: i32 = z as i32;
        let position = PlanarPoint {
            x: (2 * column + row - 2 * (row / 2)) * INNER_RADIUS,
            z: -(row * (OUTER_RADIUS + OUTER_RADIUS / 2)),
        };
        let height_refs = HexGrid::get_height_refs(x, z, cell_count_x, cell_count_z);
        let neighbor_cell_refs = [None; 6];
        let terrain: u32 = 0;
        HexCell { position, height_refs, terrain, neighbor_cell_refs }
    }

    /// A grid of `cell_count_x` columns and `cell_count_z` rows in which
    /// every corner has the default height and every cell terrain 0.
    ///
    /// The cells are made first, each from its column and row alone.  A
    /// second pass links them: each cell to the west, and to the two cells
    /// of the row before it that its row's parity puts next to it; every
    /// link is made in both directions at once.
    pub fn new(cell_count_x: usize, cell_count_z: usize) -> (grid: HexGrid)
        requires
            2 * cell_count_x <= usize::MAX,
            cell_count_z < usize::MAX,
            cell_count_x * cell_count_z <= MAX_CELLS,
        ensures
            grid.wf(),
            grid.columns() == cell_count_x,
            cell_count_x > 0 ==> grid.rows() == cell_count_z,
            forall|i: int, j: int|
                grid.in_lattice(i, j) ==> (#[trigger] grid.heights[i][j]) == DEFAULT_HEIGHT,
            forall|a: int, b: int| grid.in_grid(a, b) ==> (#[trigger] grid.cells[a][b]).terrain == 0,
    {
        let mut heights: Vec<Vec<i32>> = Vec::new();
        for i in 0..2 * cell_count_x
            invariant
                cell_count_z < usize::MAX,
                heights.len() == i,
                forall|k: int|
                    0 <= k < i ==> (#[trigger] heights[k]).len() == cell_count_z + 1,
                forall|k: int, j: int|
                    0 <= k < i && 0 <= j <= cell_count_z ==> (#[trigger] heights[k][j])
                        == DEFAULT_HEIGHT,
        {
            heights.push(vec![DEFAULT_HEIGHT; cell_count_z + 1]);
        }
        let mut cells: Vec<Vec<HexCell>> = Vec::new();
        for x in 0..cell_count_x
            invariant
                2 * cell_count_x <= usize::MAX,
                cell_count_x * cell_count_z <= MAX_CELLS,
                cells.len() == x,
                created(cells@, x as int, cell_count_x as int, cell_count_z as int),
        {
            let mut column: Vec<HexCell> = Vec::new();
            for z in 0..cell_count_z
                invariant
                    x < cell_count_x,
                    2 * cell_count_x <= usize::MAX,
                    cell_count_x * cell_count_z <= MAX_CELLS,
                    column.len() == z,
                    forall|b: int|
                        0 <= b < z ==> {
                            &&& (#[trigger] column[b]).position@ == cell_center(x as int, b)
                            &&& column[b].terrain == 0
                        },
                    forall|b: int, i: int|
                        0 <= b < z && 0 <= i < 6 ==> pair_model(#[trigger] column[b].height_refs[i])
                            == corner_index(x as int, b, cell_count_x as int, i),
                    forall|b: int, d: int|
                        0 <= b < z && 0 <= d < 6 ==> (#[trigger] column[b].neighbor_cell_refs[d])
                            is None,
            {
                proof {
                    lemma_place_within_cells(
                        x as int,
                        z as int,
                        cell_count_x as int,
                        cell_count_z as int,
                    );
                }
                column.push(HexGrid::create_cell(x, z, cell_count_x, cell_count_z));
            }
            cells.push(column);
        }
        for x in 0..cell_count_x
            invariant
                cells.len() == cell_count_x,
                linked_until(cells@, x as int, 0, cell_count_x as int, cell_count_z as int),
        {
            for z in 0..cell_count_z
                invariant
                    x < cell_count_x,
                    cells.len() == cell_count_x,
                    linked_until(cells@, x as int, z as int, cell_count_x as int, cell_count_z as int),
            {
                link_cell(&mut cells, x, z, cell_count_x, cell_count_z);
            }
        }
        HexGrid { cells, heights }
    }
}

} // verus!
