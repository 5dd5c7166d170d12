use hex_terrain::geometry::{blend_bridge, corner, normal, scaled_corner};
use hex_terrain::interp::{calc_weight, edge_gap};
use hex_terrain::{Elevation, HexGrid, PlanarPoint};

const OUTER: f64 = 10.0;
const INNER: f64 = OUTER * 0.866025404;

fn world(e: Elevation) -> f64 {
    e.num as f64 / e.den as f64 * (OUTER / 30.0)
}

/// The quotient form of the weights, in world units and floating point.
fn quotient_height(p: PlanarPoint, centre: PlanarPoint, heights: [i32; 6]) -> f64 {
    let corners = [
        (0.0, -OUTER),
        (-INNER, -0.5 * OUTER),
        (-INNER, 0.5 * OUTER),
        (0.0, OUTER),
        (INNER, 0.5 * OUTER),
        (INNER, -0.5 * OUTER),
        (0.0, -OUTER),
    ];
    let normals = [
        (0.5, -0.866025404),
        (-0.5, -0.866025404),
        (-1.0, 0.0),
        (-0.5, 0.866025404),
        (0.5, 0.866025404),
        (1.0, 0.0),
        (0.5, -0.866025404),
    ];
    let x = (p.x - centre.x) as f64 * INNER / 15.0;
    let z = (p.z - centre.z) as f64 * OUTER / 30.0;
    let mut sum = 0.0;
    let mut height = 0.0;
    for i in 0..6 {
        let (vx, vz) = corners[i];
        let (nx, nz) = normals[i];
        let (mx, mz) = normals[i + 1];
        let weight = 0.86602540378 / ((nx * (vx - x) + nz * (vz - z)) * (mx * (vx - x) + mz * (vz - z)));
        sum += weight;
        height += heights[i] as f64 * weight;
    }
    height / sum * (OUTER / 4.0)
}

/// A grid of three by three cells whose middle cell has the given corner heights.
fn grid_with_corners(heights: [i32; 6]) -> HexGrid {
    let mut grid = HexGrid::new(3, 3);
    let refs = grid.cells[1][1].height_refs;
    for i in 0..6 {
        grid.set_height(refs[i].0, refs[i].1, heights[i]);
    }
    grid
}

fn height_in_middle_cell(grid: &HexGrid, dx: i32, dz: i32) -> Elevation {
    let cell = grid.cells[1][1];
    grid.calc_height(PlanarPoint { x: cell.position.x + dx, z: cell.position.z + dz }, &cell)
}

#[test]
fn tables_of_the_hexagon() {
    assert_eq!(corner(0), PlanarPoint { x: 0, z: -30 });
    assert_eq!(corner(1), PlanarPoint { x: -15, z: -15 });
    assert_eq!(corner(2), PlanarPoint { x: -15, z: 15 });
    assert_eq!(corner(3), PlanarPoint { x: 0, z: 30 });
    assert_eq!(corner(4), PlanarPoint { x: 15, z: 15 });
    assert_eq!(corner(5), PlanarPoint { x: 15, z: -15 });
    assert_eq!(corner(6), corner(0));
    assert_eq!(normal(0), PlanarPoint { x: 1, z: -1 });
    assert_eq!(normal(2), PlanarPoint { x: -2, z: 0 });
    assert_eq!(normal(4), PlanarPoint { x: 1, z: 1 });
    assert_eq!(normal(6), normal(0));
    assert_eq!(scaled_corner(0), PlanarPoint { x: 0, z: -24 });
    assert_eq!(scaled_corner(1), PlanarPoint { x: -12, z: -12 });
    assert_eq!(scaled_corner(4), PlanarPoint { x: 12, z: 12 });
    assert_eq!(scaled_corner(6), scaled_corner(0));
    assert_eq!(blend_bridge(0), PlanarPoint { x: -3, z: -9 });
    assert_eq!(blend_bridge(1), PlanarPoint { x: -6, z: 0 });
    assert_eq!(blend_bridge(5), PlanarPoint { x: 3, z: -9 });
}

#[test]
fn lattice_point_arithmetic() {
    let a = PlanarPoint { x: 3, z: -6 };
    let b = PlanarPoint { x: 12, z: 9 };
    assert_eq!(a.translate(b), PlanarPoint { x: 15, z: 3 });
    assert_eq!(a.lerp_thirds(b, 0), a);
    assert_eq!(a.lerp_thirds(b, 1), PlanarPoint { x: 6, z: -1 });
    assert_eq!(a.lerp_thirds(b, 2), PlanarPoint { x: 9, z: 4 });
    assert_eq!(a.lerp_thirds(b, 3), b);
    assert_eq!(b.lerp_thirds(a, 1), PlanarPoint { x: 9, z: 4 });
    let c = PlanarPoint { x: 0, z: 0 };
    assert_eq!(c.centroid_with(PlanarPoint { x: 0, z: -24 }, PlanarPoint { x: -12, z: -12 }), PlanarPoint { x: -4, z: -12 });
    let far = PlanarPoint { x: i32::MIN, z: i32::MAX };
    let other = PlanarPoint { x: i32::MAX, z: i32::MIN };
    assert_eq!(far.lerp_thirds(other, 3), other);
    assert_eq!(far.lerp_thirds(other, 1), PlanarPoint { x: -715_827_883, z: 715_827_882 });
}

#[test]
fn edge_gap_is_the_distance_to_an_edge() {
    let centre = PlanarPoint { x: 0, z: 0 };
    for j in 0..6 {
        assert_eq!(edge_gap(corner(j), normal(j), centre), 30);
        assert_eq!(edge_gap(corner(j), normal(j), corner(j)), 0);
        assert_eq!(edge_gap(corner(j), normal(j), corner((j + 5) % 6)), 0);
        assert_eq!(edge_gap(corner(j), normal(j), corner((j + 3) % 6)), 60);
    }
    assert_eq!(edge_gap(corner(2), normal(2), PlanarPoint { x: 4, z: -8 }), 38);
    assert_eq!(edge_gap(corner(0), normal(0), PlanarPoint { x: 4, z: -8 }), 18);
}

#[test]
fn weights_in_the_centre_and_in_a_corner() {
    let centre = PlanarPoint { x: 0, z: 0 };
    for i in 0..6 {
        assert_eq!(calc_weight(i, centre), 810_000);
    }
    for i in 0..6 {
        for k in 0..6 {
            let expected = if i == k { 3_240_000 } else { 0 };
            assert_eq!(calc_weight(k, corner(i)), expected);
        }
    }
    // distances at (4, -8): 18, 26, 38, 42, 34, 22
    assert_eq!(calc_weight(0, PlanarPoint { x: 4, z: -8 }), 38 * 42 * 34 * 22);
    assert_eq!(calc_weight(3, PlanarPoint { x: 4, z: -8 }), 22 * 18 * 26 * 38);
}

#[test]
fn corner_takes_its_own_height() {
    let heights = [7, -3, 0, 12, 5, 1];
    let grid = grid_with_corners(heights);
    for i in 0..6 {
        let c = corner(i);
        let e = height_in_middle_cell(&grid, c.x, c.z);
        assert!(e.den > 0);
        assert_eq!(e.num * 2, heights[i] as i64 * 15 * e.den);
        assert_eq!(world(e), heights[i] as f64 * 2.5);
    }
}

#[test]
fn edge_blends_its_two_corners_only() {
    let grid = grid_with_corners([4, 10, 100, 100, 100, 100]);
    // a third of the way from corner 0 to corner 1
    let e = height_in_middle_cell(&grid, -5, -25);
    assert_eq!(e.num * 2, 6 * 15 * e.den);
    // halfway is not a lattice point; two thirds of the way
    let f = height_in_middle_cell(&grid, -10, -20);
    assert_eq!(f.num * 2, 8 * 15 * f.den);
}

#[test]
fn centre_is_the_mean_of_the_corners() {
    let grid = grid_with_corners([1, 2, 3, 4, 5, 6]);
    let e = height_in_middle_cell(&grid, 0, 0);
    assert_eq!(e, Elevation { num: 255_150_000, den: 9_720_000 });
    assert_eq!(world(e), 8.75);
}

#[test]
fn inner_points_match_the_quotient_form() {
    let samples = [
        (0, 0, [1, 2, 3, 4, 5, 6]),
        (4, -8, [1, 2, 3, 4, 5, 6]),
        (-12, -12, [0, 0, 0, 9, 0, 0]),
        (6, 6, [5, 5, 5, 2, 2, 2]),
        (-4, 14, [3, -1, 4, -1, 5, -9]),
        (14, 0, [0, 1, 0, 1, 0, 1]),
        (-1, 27, [2, 2, 2, 5, 2, 2]),
    ];
    for (dx, dz, heights) in samples {
        let grid = grid_with_corners(heights);
        let cell = grid.cells[1][1];
        let p = PlanarPoint { x: cell.position.x + dx, z: cell.position.z + dz };
        let exact = world(grid.calc_height(p, &cell));
        let quotient = quotient_height(p, cell.position, heights);
        assert!((exact - quotient).abs() < 1e-6, "{exact} and {quotient} at {dx}, {dz}");
    }
}

#[test]
fn hand_computed_heights() {
    let grid = grid_with_corners([1, 2, 3, 4, 5, 6]);
    assert_eq!(height_in_middle_cell(&grid, 4, -8), Elevation { num: 257_096_880, den: 9_316_800 });
    let peak = grid_with_corners([0, 0, 0, 9, 0, 0]);
    assert_eq!(height_in_middle_cell(&peak, -12, -12), Elevation { num: 7_873_200, den: 7_646_400 });
    let slope = grid_with_corners([5, 5, 5, 2, 2, 2]);
    assert_eq!(height_in_middle_cell(&slope, 6, 6), Elevation { num: 187_887_600, den: 9_201_600 });
}

#[test]
fn level_cell_is_flat_everywhere() {
    let grid = grid_with_corners([-6; 6]);
    for (dx, dz) in [(0, 0), (15, 15), (-15, 0), (3, -20), (0, 30), (-7, 9), (12, -12)] {
        let e = height_in_middle_cell(&grid, dx, dz);
        assert!(e.den > 0);
        assert_eq!(e.num * 2, -6 * 15 * e.den);
    }
}

#[test]
fn height_stays_between_the_lowest_and_the_highest_corner() {
    let grid = grid_with_corners([3, 8, -2, 5, 0, 7]);
    for dx in -15..=15 {
        for dz in -30..=30 {
            let inside = 30 - dx + dz >= 0
                && 30 + dx + dz >= 0
                && 30 + dx - dz >= 0
                && 30 - dx - dz >= 0;
            if inside {
                let e = height_in_middle_cell(&grid, dx, dz);
                assert!(e.den > 0);
                assert!(e.num * 2 >= -2 * 15 * e.den, "at {dx}, {dz}");
                assert!(e.num * 2 <= 8 * 15 * e.den, "at {dx}, {dz}");
            }
        }
    }
}

#[test]
fn extreme_heights_do_not_overflow() {
    let grid = grid_with_corners([i32::MAX; 6]);
    let e = height_in_middle_cell(&grid, 0, 0);
    assert_eq!(e.num as i128 * 2, i32::MAX as i128 * 15 * e.den as i128);
    let low = grid_with_corners([i32::MIN; 6]);
    let f = height_in_middle_cell(&low, 0, 30);
    assert_eq!(f.num as i128 * 2, i32::MIN as i128 * 15 * f.den as i128);
}

#[test]
fn neighbours_agree_along_their_edge() {
    let mut grid = HexGrid::new(3, 3);
    let mut h = 0;
    for i in 0..grid.heights.len() {
        for j in 0..grid.heights[i].len() {
            grid.set_height(i, j, h % 11 - 4);
            h += 7;
        }
    }
    let cell = grid.cells[1][1];
    for d in 0..6 {
        let (nx, nz) = cell.neighbor_cell_refs[d].unwrap();
        let other = grid.cells[nx][nz];
        let a = corner(d);
        let b = corner(d + 1);
        for k in 0..=3 {
            let p = PlanarPoint {
                x: cell.position.x + a.x + k * (b.x - a.x) / 3,
                z: cell.position.z + a.z + k * (b.z - a.z) / 3,
            };
            let here = grid.calc_height(p, &cell);
            let there = grid.calc_height(p, &other);
            assert_eq!(here.num as i128 * there.den as i128, there.num as i128 * here.den as i128);
        }
    }
}
