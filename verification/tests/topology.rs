use hex_terrain::geometry::{E, NE, NW, SE, SW, W};
use hex_terrain::grid::{DEFAULT_HEIGHT, MAX_CELLS};
use hex_terrain::{HexGrid, PlanarPoint};

#[test]
fn new_grid_has_the_lattice_of_default_heights() {
    let grid = HexGrid::new(3, 4);
    assert_eq!(grid.cells.len(), 3);
    assert_eq!(grid.heights.len(), 6);
    for column in &grid.cells {
        assert_eq!(column.len(), 4);
    }
    for column in &grid.heights {
        assert_eq!(column.len(), 5);
        for h in column {
            assert_eq!(*h, DEFAULT_HEIGHT);
            assert_eq!(*h, 2);
        }
    }
    for column in &grid.cells {
        for cell in column {
            assert_eq!(cell.terrain, 0);
        }
    }
}

#[test]
fn empty_grids() {
    let none = HexGrid::new(0, 0);
    assert_eq!(none.cells.len(), 0);
    assert_eq!(none.heights.len(), 0);
    let no_columns = HexGrid::new(0, 5);
    assert_eq!(no_columns.cells.len(), 0);
    assert_eq!(no_columns.heights.len(), 0);
    let no_rows = HexGrid::new(2, 0);
    assert_eq!(no_rows.cells.len(), 2);
    assert_eq!(no_rows.cells[0].len(), 0);
    assert_eq!(no_rows.heights.len(), 4);
    assert_eq!(no_rows.heights[3], vec![2]);
    assert_eq!(no_rows.triangulate_grid().positions.len(), 0);
}

#[test]
fn largest_grid_size_is_forty_million_cells() {
    assert_eq!(MAX_CELLS, 40_000_000);
}

#[test]
fn cell_centres_follow_the_row_parity() {
    let grid = HexGrid::new(3, 3);
    assert_eq!(grid.cells[0][0].position, PlanarPoint { x: 0, z: 0 });
    assert_eq!(grid.cells[1][0].position, PlanarPoint { x: 30, z: 0 });
    assert_eq!(grid.cells[0][1].position, PlanarPoint { x: 15, z: -45 });
    assert_eq!(grid.cells[2][1].position, PlanarPoint { x: 75, z: -45 });
    assert_eq!(grid.cells[1][2].position, PlanarPoint { x: 30, z: -90 });
}

#[test]
fn create_cell_is_unlinked() {
    let cell = HexGrid::create_cell(2, 3, 4, 5);
    assert_eq!(cell.position, PlanarPoint { x: 75, z: -135 });
    assert_eq!(cell.neighbor_cell_refs, [None; 6]);
    assert_eq!(cell.terrain, 0);
    assert_eq!(cell.height_refs, HexGrid::get_height_refs(2, 3, 4, 5));
}

#[test]
fn height_refs_of_an_even_and_an_odd_row() {
    assert_eq!(
        HexGrid::get_height_refs(0, 0, 3, 3),
        [(1, 1), (0, 1), (0, 0), (1, 0), (2, 0), (2, 1)]
    );
    assert_eq!(
        HexGrid::get_height_refs(1, 1, 3, 3),
        [(4, 2), (3, 2), (3, 1), (4, 1), (5, 1), (5, 2)]
    );
}

#[test]
fn height_refs_wrap_around_the_last_column() {
    assert_eq!(
        HexGrid::get_height_refs(2, 0, 3, 3),
        [(5, 1), (4, 1), (4, 0), (5, 0), (0, 0), (0, 1)]
    );
    assert_eq!(
        HexGrid::get_height_refs(2, 1, 3, 3),
        [(0, 2), (5, 2), (5, 1), (0, 1), (1, 1), (1, 2)]
    );
    // the column is taken modulo the width of the grid
    assert_eq!(HexGrid::get_height_refs(5, 1, 3, 3), HexGrid::get_height_refs(2, 1, 3, 3));
}

#[test]
fn height_refs_of_a_grid_one_column_wide() {
    assert_eq!(
        HexGrid::get_height_refs(0, 0, 1, 2),
        [(1, 1), (0, 1), (0, 0), (1, 0), (0, 0), (0, 1)]
    );
    assert_eq!(
        HexGrid::get_height_refs(0, 1, 1, 2),
        [(0, 2), (1, 2), (1, 1), (0, 1), (1, 1), (1, 2)]
    );
}

#[test]
fn height_refs_lie_in_the_lattice() {
    let grid = HexGrid::new(5, 4);
    for column in &grid.cells {
        for cell in column {
            for (i, j) in cell.height_refs {
                assert!(i < grid.heights.len());
                assert!(j < grid.heights[i].len());
            }
        }
    }
}

#[test]
fn neighbours_of_an_even_row() {
    let grid = HexGrid::new(3, 3);
    let cell = &grid.cells[1][2];
    assert_eq!(cell.neighbor_cell_refs[W], Some((0, 2)));
    assert_eq!(cell.neighbor_cell_refs[E], Some((2, 2)));
    assert_eq!(cell.neighbor_cell_refs[SW], Some((1, 1)));
    assert_eq!(cell.neighbor_cell_refs[SE], Some((0, 1)));
    assert_eq!(cell.neighbor_cell_refs[NE], None);
    assert_eq!(cell.neighbor_cell_refs[NW], None);
    let first = &grid.cells[1][0];
    assert_eq!(first.neighbor_cell_refs[NE], Some((0, 1)));
    assert_eq!(first.neighbor_cell_refs[NW], Some((1, 1)));
    assert_eq!(first.neighbor_cell_refs[SW], None);
    assert_eq!(first.neighbor_cell_refs[SE], None);
}

#[test]
fn neighbours_of_an_odd_row() {
    let grid = HexGrid::new(3, 3);
    let cell = &grid.cells[1][1];
    assert_eq!(cell.neighbor_cell_refs[W], Some((0, 1)));
    assert_eq!(cell.neighbor_cell_refs[E], Some((2, 1)));
    assert_eq!(cell.neighbor_cell_refs[SE], Some((1, 0)));
    assert_eq!(cell.neighbor_cell_refs[SW], Some((2, 0)));
    assert_eq!(cell.neighbor_cell_refs[NE], Some((1, 2)));
    assert_eq!(cell.neighbor_cell_refs[NW], Some((2, 2)));
}

#[test]
fn neighbours_at_the_edges_of_the_grid() {
    let grid = HexGrid::new(3, 3);
    assert_eq!(grid.cells[0][0].neighbor_cell_refs, [None, None, None, None, Some((1, 0)), Some((0, 1))]);
    assert_eq!(
        grid.cells[2][1].neighbor_cell_refs,
        [Some((2, 2)), Some((1, 1)), Some((2, 0)), None, None, None]
    );
    let single = HexGrid::new(1, 1);
    assert_eq!(single.cells[0][0].neighbor_cell_refs, [None; 6]);
}

#[test]
fn every_neighbour_points_back() {
    let grid = HexGrid::new(5, 6);
    let mut links = 0;
    for x in 0..5 {
        for z in 0..6 {
            for d in 0..6 {
                if let Some((nx, nz)) = grid.cells[x][z].neighbor_cell_refs[d] {
                    assert_eq!(grid.cells[nx][nz].neighbor_cell_refs[(d + 3) % 6], Some((x, z)));
                    links += 1;
                }
            }
        }
    }
    // 4 * 6 links along the rows, and 9 between each two rows, each seen from both ends
    assert_eq!(links, 2 * (4 * 6 + 9 * 5));
}

#[test]
fn every_neighbour_lies_one_step_away() {
    let steps = [(-15, -45), (-30, 0), (-15, 45), (15, 45), (30, 0), (15, -45)];
    let grid = HexGrid::new(4, 5);
    for x in 0..4 {
        for z in 0..5 {
            let here = grid.cells[x][z].position;
            for d in 0..6 {
                if let Some((nx, nz)) = grid.cells[x][z].neighbor_cell_refs[d] {
                    let there = grid.cells[nx][nz].position;
                    assert_eq!((there.x - here.x, there.z - here.z), steps[d]);
                }
            }
        }
    }
}

#[test]
fn neighbours_name_the_same_corners() {
    let grid = HexGrid::new(5, 6);
    for x in 0..5 {
        for z in 0..6 {
            let cell = &grid.cells[x][z];
            for d in 0..6 {
                if let Some((nx, nz)) = cell.neighbor_cell_refs[d] {
                    let other = &grid.cells[nx][nz];
                    assert_eq!(cell.height_refs[d], other.height_refs[(d + 4) % 6]);
                    assert_eq!(cell.height_refs[(d + 1) % 6], other.height_refs[(d + 3) % 6]);
                }
            }
        }
    }
}

#[test]
fn a_corner_inside_the_grid_belongs_to_three_cells() {
    let grid = HexGrid::new(4, 4);
    let corner = grid.cells[1][1].height_refs[1];
    let mut owners = Vec::new();
    for x in 0..4 {
        for z in 0..4 {
            if grid.cells[x][z].height_refs.contains(&corner) {
                owners.push((x, z));
            }
        }
    }
    assert_eq!(owners, vec![(0, 1), (1, 1), (1, 2)]);
}
