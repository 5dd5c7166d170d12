use hex_terrain::geometry::scaled_corner;
use hex_terrain::{EdgeVertices, Elevation, HexGrid, OffsetCoordinate};

const UNIT: f64 = 7.5;

fn steps(e: Elevation) -> f64 {
    e.num as f64 / e.den as f64
}

#[test]
fn raising_a_cell_to_five() {
    let mut grid = HexGrid::new(2, 2);
    for (i, j) in grid.cells[0][0].height_refs {
        grid.set_height(i, j, 5);
    }
    let mesh = grid.triangulate_grid();
    // the first cell comes first in the buffers: six fans of ten vertices,
    // of which the second is the centre of the cell
    let centre = grid.cells[0][0].position;
    for fan in 0..6 {
        let v = mesh.positions[10 * fan + 1];
        assert_eq!(v.point(), centre);
        assert_eq!(v.y.num * 2, 5 * 15 * v.y.den);
        assert_eq!(steps(v.y), 5.0 * UNIT);
    }
    let at_centre = grid.calc_height(centre, &grid.cells[0][0]);
    assert_eq!(steps(at_centre), 5.0 * UNIT);

    // the cell next to it rises smoothly: along the border of its solid
    // hexagon no two vertices next to each other differ by more than a step
    let cell = grid.cells[1][0];
    let mut lowest = f64::MAX;
    let mut highest = f64::MIN;
    let mut ring = Vec::new();
    for dir in 0..6 {
        let edge = EdgeVertices::new(
            cell.position.translate(scaled_corner(dir)),
            cell.position.translate(scaled_corner(dir + 1)),
        );
        for p in [edge.v1, edge.v2, edge.v3] {
            ring.push(steps(grid.calc_height(p, &cell)));
        }
    }
    assert_eq!(ring.len(), 18);
    for k in 0..18 {
        let (here, next) = (ring[k], ring[(k + 1) % 18]);
        assert!((here - next).abs() <= UNIT, "{here} and {next}");
        lowest = lowest.min(here);
        highest = highest.max(here);
    }
    assert!(lowest >= 2.0 * UNIT && highest <= 5.0 * UNIT);
    assert!(lowest < highest);
    // and the mesh holds these very vertices
    for v in &mesh.positions {
        for dir in 0..6 {
            if v.point() == cell.position.translate(scaled_corner(dir)) {
                let h = steps(v.y);
                assert!((h - ring[3 * dir]).abs() < 1e-9);
            }
        }
    }
}

#[test]
fn pick_edit_and_rebuild() {
    let mut grid = HexGrid::new(4, 4);
    let hit = grid.cells[2][3].position;
    let picked = OffsetCoordinate::from_position(hit);
    assert!(picked.x < grid.cells.len() && picked.z < grid.cells[picked.x].len());
    let before = grid.triangulate_grid();
    assert!(grid.adjust_fits(picked.x, picked.z, 1));
    grid.adjust_cell(picked.x, picked.z, 1);
    let after = grid.triangulate_grid();
    assert_eq!(before.positions.len(), after.positions.len());
    let mut changed = 0;
    for k in 0..before.positions.len() {
        if before.positions[k] != after.positions[k] {
            changed += 1;
        }
    }
    assert!(changed > 0);
    grid.flatten_cell(picked.x, picked.z);
    for (i, j) in grid.cells[2][3].height_refs {
        assert_eq!(grid.heights[i][j], 3);
    }
}

#[test]
fn pick_outside_the_grid_is_out_of_range() {
    let grid = HexGrid::new(4, 4);
    let west = hex_terrain::PlanarPoint { x: -40, z: 0 };
    let picked = OffsetCoordinate::from_position(west);
    assert!(picked.x >= grid.cells.len());
    let south = hex_terrain::PlanarPoint { x: 0, z: 50 };
    let picked = OffsetCoordinate::from_position(south);
    assert!(picked.z >= grid.cells[0].len());
    let north = hex_terrain::PlanarPoint { x: 30, z: -45 * 4 };
    let picked = OffsetCoordinate::from_position(north);
    assert_eq!(picked, OffsetCoordinate { x: 1, z: 4 });
    assert!(picked.z >= grid.cells[0].len());
}
