use hex_terrain::geometry::{scaled_corner, NE, SE, W};
use hex_terrain::{
    BlendColor, EdgeVertices, Elevation, HexGrid, HexMeshData, MeshBuffers, PlanarPoint, Vertex,
};
use std::collections::HashMap;

const FLAT: Elevation = Elevation { num: 0, den: 1 };

fn at(x: i32, z: i32) -> PlanarPoint {
    PlanarPoint { x, z }
}

fn on_plane(x: i32, z: i32) -> Vertex {
    Vertex { x, y: FLAT, z }
}

fn level(e: Elevation, steps: i64) -> bool {
    e.den > 0 && e.num * 2 == steps * 15 * e.den
}

fn same_height(a: Elevation, b: Elevation) -> bool {
    a.num as i128 * b.den as i128 == b.num as i128 * a.den as i128
}

#[test]
fn blend_colors_are_pure() {
    assert_eq!(BlendColor::Red.rgba(), [255, 0, 0, 255]);
    assert_eq!(BlendColor::Green.rgba(), [0, 255, 0, 255]);
    assert_eq!(BlendColor::Blue.rgba(), [0, 0, 255, 255]);
}

#[test]
fn edge_vertices_cut_an_edge_into_thirds() {
    let e = EdgeVertices::new(at(0, -24), at(-12, -12));
    assert_eq!(e.v1, at(0, -24));
    assert_eq!(e.v2, at(-4, -20));
    assert_eq!(e.v3, at(-8, -16));
    assert_eq!(e.v4, at(-12, -12));
    let point = EdgeVertices::new(at(5, 5), at(5, 5));
    assert_eq!(point.v2, at(5, 5));
    assert_eq!(point.v3, at(5, 5));
}

#[test]
fn mesh_data_starts_empty_and_grows() {
    let mut data = HexMeshData::new();
    assert_eq!(data.vertex_count(), 0);
    assert!(data.colors.is_empty() && data.vert_terrain.is_empty() && data.triangles.is_empty());
    data.push_point(at(3, 4));
    data.push_color(BlendColor::Blue);
    data.push_colors(BlendColor::Green, 2);
    data.push_terrain((1, 2, 3));
    data.push_terrains((4, 5, 6), 2);
    data.push_triangle(0, 0, 0);
    data.raise(0, Elevation { num: 7, den: 2 });
    assert_eq!(data.vertex_count(), 1);
    assert_eq!(data.vertices, vec![Vertex { x: 3, y: Elevation { num: 7, den: 2 }, z: 4 }]);
    assert_eq!(data.vertices[0].point(), at(3, 4));
    assert_eq!(data.colors, vec![BlendColor::Blue, BlendColor::Green, BlendColor::Green]);
    assert_eq!(data.vert_terrain, vec![(1, 2, 3), (4, 5, 6), (4, 5, 6)]);
    assert_eq!(data.triangles, vec![0, 0, 0]);
    data.push_colors(BlendColor::Red, 0);
    assert_eq!(data.colors.len(), 3);
}

#[test]
fn subdivide_triangle_makes_ten_vertices_and_nine_triangles() {
    let grid = HexGrid::new(1, 1);
    let mut data = HexMeshData::new();
    data.push_point(at(100, 100));
    data.push_color(BlendColor::Blue);
    data.push_terrain((9, 9, 9));
    grid.subdivide_triangle(at(0, 0), at(0, -24), at(-12, -12), 7, &mut data);
    assert_eq!(
        data.vertices,
        vec![
            on_plane(100, 100),
            on_plane(-4, -12),
            on_plane(0, 0),
            on_plane(0, -24),
            on_plane(-12, -12),
            on_plane(0, -8),
            on_plane(0, -16),
            on_plane(-4, -20),
            on_plane(-8, -16),
            on_plane(-8, -8),
            on_plane(-4, -4),
        ]
    );
    let mut colors = vec![BlendColor::Blue];
    colors.extend(vec![BlendColor::Red; 10]);
    assert_eq!(data.colors, colors);
    let mut terrain = vec![(9, 9, 9)];
    terrain.extend(vec![(7, 7, 7); 10]);
    assert_eq!(data.vert_terrain, terrain);
    assert_eq!(
        data.triangles,
        vec![
            2, 10, 5, 6, 5, 1, 6, 7, 3, 1, 8, 7, 9, 4, 8, 10, 9, 1, 1, 5, 10, 6, 1, 7, 9, 8, 1
        ]
    );
}

#[test]
fn subdivided_triangle_covers_the_triangle_once() {
    let grid = HexGrid::new(1, 1);
    let mut data = HexMeshData::new();
    grid.subdivide_triangle(at(0, 0), at(30, 0), at(0, 30), 0, &mut data);
    let mut doubled_area = 0;
    for t in data.triangles.chunks(3) {
        let (a, b, c) = (data.vertices[t[0] as usize], data.vertices[t[1] as usize], data.vertices[t[2] as usize]);
        let cross = (b.x - a.x) * (c.z - a.z) - (c.x - a.x) * (b.z - a.z);
        assert_eq!(cross.abs(), 100);
        doubled_area += cross.abs();
    }
    assert_eq!(doubled_area, 900);
}

#[test]
fn add_quad_makes_two_triangles() {
    let mut data = HexMeshData::new();
    data.push_point(at(0, 0));
    HexGrid::add_quad(at(1, 1), at(2, 2), at(3, 3), at(4, 4), &mut data);
    assert_eq!(
        data.vertices,
        vec![on_plane(0, 0), on_plane(1, 1), on_plane(2, 2), on_plane(3, 3), on_plane(4, 4)]
    );
    assert_eq!(data.triangles, vec![1, 2, 3, 2, 4, 3]);
    assert!(data.colors.is_empty());
    assert!(data.vert_terrain.is_empty());
}

#[test]
fn edge_strip_is_three_quads() {
    let grid = HexGrid::new(1, 1);
    let mut data = HexMeshData::new();
    let e1 = EdgeVertices::new(at(0, 0), at(0, 30));
    let e2 = EdgeVertices::new(at(6, 0), at(6, 30));
    grid.triangulate_edge_strip(&e1, 11, &e2, 22, &mut data);
    assert_eq!(
        data.vertices,
        vec![
            on_plane(0, 0),
            on_plane(0, 10),
            on_plane(6, 0),
            on_plane(6, 10),
            on_plane(0, 10),
            on_plane(0, 20),
            on_plane(6, 10),
            on_plane(6, 20),
            on_plane(0, 20),
            on_plane(0, 30),
            on_plane(6, 20),
            on_plane(6, 30),
        ]
    );
    let quad = [BlendColor::Green, BlendColor::Green, BlendColor::Red, BlendColor::Red];
    assert_eq!(data.colors, [quad, quad, quad].concat());
    assert_eq!(data.vert_terrain, vec![(22, 11, 22); 12]);
    assert_eq!(
        data.triangles,
        vec![0, 1, 2, 1, 3, 2, 4, 5, 6, 5, 7, 6, 8, 9, 10, 9, 11, 10]
    );
}

fn ring_edge(grid: &HexGrid, x: usize, z: usize, dir: usize) -> EdgeVertices {
    let c = grid.cells[x][z].position;
    EdgeVertices::new(c.translate(scaled_corner(dir)), c.translate(scaled_corner(dir + 1)))
}

#[test]
fn connection_at_the_end_of_the_grid_adds_nothing() {
    let grid = HexGrid::new(2, 2);
    let mut data = HexMeshData::new();
    grid.triangulate_connection(W, 0, 0, ring_edge(&grid, 0, 0, W), &mut data);
    grid.triangulate_connection(SE, 1, 0, ring_edge(&grid, 1, 0, SE), &mut data);
    grid.triangulate_connection(NE, 1, 1, ring_edge(&grid, 1, 1, NE), &mut data);
    assert_eq!(data, HexMeshData::new());
}

#[test]
fn connection_to_a_single_neighbour_is_a_strip() {
    let mut grid = HexGrid::new(2, 1);
    grid.cells[0][0].terrain = 4;
    grid.cells[1][0].terrain = 9;
    let mut data = HexMeshData::new();
    grid.triangulate_connection(W, 1, 0, ring_edge(&grid, 1, 0, W), &mut data);
    assert_eq!(data.vertex_count(), 12);
    let places: Vec<(i32, i32)> = data.vertices.iter().map(|v| (v.x, v.z)).collect();
    assert_eq!(
        places,
        vec![
            (18, -12),
            (18, -4),
            (12, -12),
            (12, -4),
            (18, -4),
            (18, 4),
            (12, -4),
            (12, 4),
            (18, 4),
            (18, 12),
            (12, 4),
            (12, 12),
        ]
    );
    for v in &data.vertices {
        assert!(level(v.y, 2));
    }
    assert_eq!(data.vert_terrain, vec![(4, 9, 4); 12]);
    assert_eq!(data.triangles.len(), 18);
    // the far edge of the strip is the edge of the neighbour's solid hexagon
    let c = grid.cells[0][0].position;
    assert_eq!(data.vertices[2].point(), c.translate(scaled_corner(5)));
    assert_eq!(data.vertices[11].point(), c.translate(scaled_corner(4)));
}

#[test]
fn connection_between_three_cells_adds_a_triangle() {
    let mut grid = HexGrid::new(3, 3);
    grid.cells[1][1].terrain = 1;
    grid.cells[1][2].terrain = 2;
    grid.cells[0][1].terrain = 3;
    let mut data = HexMeshData::new();
    grid.triangulate_connection(NE, 1, 1, ring_edge(&grid, 1, 1, NE), &mut data);
    assert_eq!(data.vertex_count(), 15);
    assert_eq!(data.triangles.len(), 21);
    assert_eq!(&data.triangles[18..], &[12, 14, 13]);
    assert_eq!(&data.colors[12..], &[BlendColor::Green, BlendColor::Red, BlendColor::Blue]);
    assert_eq!(&data.vert_terrain[..12], &vec![(2, 1, 2); 12][..]);
    assert_eq!(&data.vert_terrain[12..], &[(2, 1, 3), (2, 1, 3), (2, 1, 3)]);
    // the three corners of the triangle lie on the solid hexagons of the three cells
    let own = grid.cells[1][1].position;
    let north_east = grid.cells[1][2].position;
    let west = grid.cells[0][1].position;
    assert_eq!(data.vertices[12].point(), own.translate(scaled_corner(1)));
    assert_eq!(data.vertices[13].point(), north_east.translate(scaled_corner(3)));
    assert_eq!(data.vertices[14].point(), west.translate(scaled_corner(5)));
}

#[test]
fn connection_after_the_last_corner_direction_is_a_strip_alone() {
    let grid = HexGrid::new(3, 3);
    let mut data = HexMeshData::new();
    grid.triangulate_connection(SE, 1, 1, ring_edge(&grid, 1, 1, SE), &mut data);
    assert_eq!(data.vertex_count(), 12);
    assert_eq!(data.triangles.len(), 18);
}

#[test]
fn connection_vertices_take_the_height_of_their_own_cell() {
    let mut grid = HexGrid::new(2, 1);
    for (i, j) in grid.cells[0][0].height_refs {
        grid.set_height(i, j, 6);
    }
    for (i, j) in [(5usize, 5usize); 0] {
        grid.set_height(i, j, 0);
    }
    let mut data = HexMeshData::new();
    grid.triangulate_connection(W, 1, 0, ring_edge(&grid, 1, 0, W), &mut data);
    for (k, v) in data.vertices.iter().enumerate() {
        let owner = if k % 4 < 2 { grid.cells[1][0] } else { grid.cells[0][0] };
        assert_eq!(v.y, grid.calc_height(v.point(), &owner));
        if k % 4 >= 2 {
            assert!(level(v.y, 6));
        }
    }
}

#[test]
fn single_cell_is_six_fans() {
    let grid = HexGrid::new(1, 1);
    let mut data = HexMeshData::new();
    grid.triangulate_cell(0, 0, &mut data);
    assert_eq!(data.vertex_count(), 60);
    assert_eq!(data.colors, vec![BlendColor::Red; 60]);
    assert_eq!(data.vert_terrain, vec![(0, 0, 0); 60]);
    assert_eq!(data.triangles.len(), 54 * 3);
    for v in &data.vertices {
        assert!(level(v.y, 2));
    }
    for dir in 0..6 {
        assert_eq!(data.vertices[10 * dir + 1].point(), at(0, 0));
        assert_eq!(data.vertices[10 * dir + 2].point(), scaled_corner(dir));
        assert_eq!(data.vertices[10 * dir + 3].point(), scaled_corner(dir + 1));
    }
    let mesh = grid.triangulate_grid();
    assert_eq!(mesh.positions, data.vertices);
    let mut reversed = data.triangles.clone();
    reversed.reverse();
    assert_eq!(mesh.indices, reversed);
    assert_eq!(&mesh.indices[..3], &[50, 57, 58]);
    assert_eq!(&mesh.indices[159..], &[4, 9, 1]);
}

#[test]
fn cell_inside_the_grid_has_the_full_number_of_vertices() {
    let grid = HexGrid::new(3, 3);
    let mut data = HexMeshData::new();
    grid.triangulate_cell(1, 1, &mut data);
    assert_eq!(data.vertex_count(), 102);
    assert_eq!(data.triangles.len(), 3 * (54 + 3 * 6 + 2));
    let mut second = HexMeshData::new();
    grid.triangulate_cell(0, 0, &mut second);
    assert_eq!(second.vertex_count(), 60);
}

#[test]
fn cells_follow_each_other_in_the_buffers() {
    let grid = HexGrid::new(2, 2);
    let mut data = HexMeshData::new();
    grid.triangulate_cell(0, 0, &mut data);
    let first = data.vertex_count();
    grid.triangulate_cell(0, 1, &mut data);
    let second = data.vertex_count();
    grid.triangulate_cell(1, 0, &mut data);
    grid.triangulate_cell(1, 1, &mut data);
    let mesh = grid.triangulate_grid();
    assert_eq!(mesh.positions, data.vertices);
    assert_eq!(mesh.colors, data.colors);
    assert_eq!(mesh.terrain_ids, data.vert_terrain);
    assert_eq!(mesh.positions[first].point(), at(11, -57));
    assert_eq!(mesh.positions[first + 1].point(), grid.cells[0][1].position);
    assert!(data.triangles[3 * 54..].iter().all(|i| *i as usize >= first));
    assert!(data.triangles.iter().any(|i| *i as usize >= second));
}

fn check_buffers(mesh: &MeshBuffers) {
    assert_eq!(mesh.colors.len(), mesh.positions.len());
    assert_eq!(mesh.terrain_ids.len(), mesh.positions.len());
    assert_eq!(mesh.indices.len() % 3, 0);
    for i in &mesh.indices {
        assert!((*i as usize) < mesh.positions.len());
    }
    for v in &mesh.positions {
        assert!(v.y.den > 0);
    }
}

#[test]
fn buffers_are_consistent() {
    for (columns, rows) in [(1, 1), (1, 4), (4, 1), (2, 2), (3, 3), (5, 4)] {
        check_buffers(&HexGrid::new(columns, rows).triangulate_grid());
    }
}

#[test]
fn vertex_counts_of_small_grids() {
    // 60 to a cell, 12 to each pair of neighbours, 3 to each point where three cells meet
    assert_eq!(HexGrid::new(1, 1).triangulate_grid().positions.len(), 60);
    assert_eq!(HexGrid::new(2, 1).triangulate_grid().positions.len(), 2 * 60 + 12);
    assert_eq!(HexGrid::new(1, 2).triangulate_grid().positions.len(), 2 * 60 + 12);
    assert_eq!(HexGrid::new(2, 2).triangulate_grid().positions.len(), 4 * 60 + 5 * 12 + 2 * 3);
    assert_eq!(HexGrid::new(3, 3).triangulate_grid().positions.len(), 9 * 60 + 16 * 12 + 8 * 3);
}

#[test]
fn each_color_picks_the_terrain_of_the_cell_that_gave_the_height() {
    let mut grid = HexGrid::new(3, 3);
    for x in 0..3 {
        for z in 0..3 {
            grid.cells[x][z].terrain = (10 * x + z) as u32;
            for (i, j) in grid.cells[x][z].height_refs {
                grid.set_height(i, j, (7 * i + 3 * j) as i32 % 13);
            }
        }
    }
    let mesh = grid.triangulate_grid();
    for k in 0..mesh.positions.len() {
        let (a, b, c) = mesh.terrain_ids[k];
        let terrain = match mesh.colors[k] {
            BlendColor::Red => a,
            BlendColor::Green => b,
            BlendColor::Blue => c,
        };
        let owner = grid.cells[(terrain / 10) as usize][(terrain % 10) as usize];
        let v = mesh.positions[k];
        assert_eq!(v.y, grid.calc_height(v.point(), &owner), "vertex {k}");
    }
}

fn edge_counts(mesh: &MeshBuffers) -> HashMap<((i32, i32), (i32, i32)), usize> {
    let mut counts = HashMap::new();
    for t in mesh.indices.chunks(3) {
        for k in 0..3 {
            let a = mesh.positions[t[k] as usize];
            let b = mesh.positions[t[(k + 1) % 3] as usize];
            let (p, q) = ((a.x, a.z), (b.x, b.z));
            assert_ne!(p, q);
            let key = if p < q { (p, q) } else { (q, p) };
            *counts.entry(key).or_insert(0) += 1;
        }
    }
    counts
}

fn in_hexagon(p: (i32, i32), c: PlanarPoint) -> bool {
    let (a, b) = (p.0 - c.x, p.1 - c.z);
    30 - a + b >= 0 && 30 + a + b >= 0 && 30 + a - b >= 0 && 30 - a - b >= 0 && a.abs() <= 15
}

#[test]
fn mesh_of_three_by_three_is_closed() {
    let grid = HexGrid::new(3, 3);
    let mesh = grid.triangulate_grid();
    let counts = edge_counts(&mesh);
    let middle = grid.cells[1][1].position;
    let mut inner = 0;
    let mut border = 0;
    for (edge, n) in &counts {
        assert!(*n == 1 || *n == 2, "edge {edge:?} lies in {n} triangles");
        if in_hexagon(edge.0, middle) || in_hexagon(edge.1, middle) {
            assert_eq!(*n, 2, "edge {edge:?} about the middle cell");
            inner += 1;
        }
        if *n == 1 {
            border += 1;
        }
    }
    assert!(inner > 0);
    // the border runs along the solid hexagons of the outer cells, 3 segments to
    // each free edge, and across the ends of the strips that no triangle closes:
    // 16 strips have 32 ends, of which the 8 triangles close 3 each
    let mut free_edges = 0;
    for x in 0..3 {
        for z in 0..3 {
            free_edges += grid.cells[x][z].neighbor_cell_refs.iter().filter(|n| n.is_none()).count();
        }
    }
    assert_eq!(free_edges, 22);
    assert_eq!(border, 3 * free_edges + 2 * 16 - 3 * 8);
}

#[test]
fn vertices_at_the_same_place_have_the_same_height() {
    let mut grid = HexGrid::new(3, 3);
    let mut h = 1;
    for i in 0..grid.heights.len() {
        for j in 0..grid.heights[i].len() {
            grid.set_height(i, j, h % 9);
            h += 5;
        }
    }
    let mesh = grid.triangulate_grid();
    let mut seen: HashMap<(i32, i32), Elevation> = HashMap::new();
    for v in &mesh.positions {
        if let Some(e) = seen.get(&(v.x, v.z)) {
            assert!(same_height(*e, v.y), "at {}, {}", v.x, v.z);
        } else {
            seen.insert((v.x, v.z), v.y);
        }
    }
}

#[test]
fn triangulating_twice_gives_the_same_buffers() {
    let mut grid = HexGrid::new(4, 3);
    grid.adjust_cell(2, 1, 3);
    grid.cells[1][1].terrain = 5;
    let first = grid.triangulate_grid();
    let second = grid.triangulate_grid();
    assert_eq!(first, second);
    assert_eq!(first.positions, second.positions);
    assert_eq!(first.indices, second.indices);
    let again = grid.clone().triangulate_grid();
    assert_eq!(first, again);
}

#[test]
fn an_edit_changes_the_mesh_and_undoing_it_restores_it() {
    let mut grid = HexGrid::new(3, 3);
    let before = grid.triangulate_grid();
    grid.adjust_cell(1, 1, 1);
    let raised = grid.triangulate_grid();
    assert_ne!(before, raised);
    assert_eq!(before.indices, raised.indices);
    assert_eq!(before.colors, raised.colors);
    grid.adjust_cell(1, 1, -1);
    assert_eq!(grid.triangulate_grid(), before);
}
