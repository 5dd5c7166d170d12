//! Triangulating the cells: the fan inside each cell, the strips between
//! neighbours, and the triangles where three cells meet.

use vstd::prelude::*;
use crate::geometry::{
    blend_bridge, bridge, cell_center, centroid, neighbor_step, scaled_corner, solid_corner,
    trisect, PlanarPoint, Point,
};
use crate::grid::{HexGrid, MAX_CELLS};
use crate::topology::{
    lemma_neighbor_center, lemma_place_within_cells, neighbor_index, neighbor_place, pair_model,
    ref_model,
};
use crate::interp::{in_hexagon, lemma_edge_distances, Elevation, Ratio};
use crate::mesh::{
    flat, BlendColor, EdgeVertices, HexMeshData, MeshBuffers, MeshModel, VertexModel,
};

verus! {

/// Vertex `k` of a triangle cut into nine: the centroid, the three corners,
/// and two points on each side, at a third and at two thirds of the way from
/// its first corner to its second.
pub open spec fn fan_point(v1: Point, v2: Point, v3: Point, k: int) -> Point {
    if k == 0 {
        centroid(v1, v2, v3)
    } else if k == 1 {
        v1
    } else if k == 2 {
        v2
    } else if k == 3 {
        v3
    } else if k == 4 {
        trisect(v1, v2, 1)
    } else if k == 5 {
        trisect(v1, v2, 2)
    } else if k == 6 {
        trisect(v2, v3, 1)
    } else if k == 7 {
        trisect(v2, v3, 2)
    } else if k == 8 {
        trisect(v3, v1, 1)
    } else {
        trisect(v3, v1, 2)
    }
}

/// The nine triangles of a triangle cut into nine, as vertex numbers: one at
/// each corner, and six about the centroid.
pub open spec fn fan_pattern() -> Seq<int> {
    seq![
        1int, 9, 4, 5, 4, 0, 5, 6, 2, 0, 7, 6, 8, 3, 7, 9, 8, 0, 0, 4, 9, 5, 0, 6, 8, 7, 0,
    ]
}

/// The two triangles of a quad, as vertex numbers.
pub open spec fn quad_pattern() -> Seq<int> {
    seq![0int, 1, 2, 1, 3, 2]
}

/// `n` times the colour `c`.
pub open spec fn colors_of(c: BlendColor, n: nat) -> Seq<BlendColor> {
    Seq::new(n, |k: int| c)
}

/// `n` times the terrain triple `t`.
pub open spec fn terrains_of(t: (u32, u32, u32), n: nat) -> Seq<(u32, u32, u32)> {
    Seq::new(n, |k: int| t)
}

/// The triangles of a triangle cut into nine whose first vertex has the
/// number `base`.
pub open spec fn fan_triangles(base: int) -> Seq<int> {
    Seq::new(27, |k: int| base + fan_pattern()[k])
}

/// The colours of the vertices of a strip.
pub open spec fn strip_colors() -> Seq<BlendColor> {
    Seq::new(12, |k: int| strip_color(k))
}

/// The triangles of a strip whose first vertex has the number `base`.
pub open spec fn strip_triangles(base: int) -> Seq<int> {
    Seq::new(18, |k: int| base + 4 * (k / 6) + quad_pattern()[k % 6])
}

/// The triangle `v1`, `v2`, `v3` cut into nine, on the plane, as a part of a
/// mesh that follows `base` vertices.
pub open spec fn flat_fan(v1: Point, v2: Point, v3: Point, terrain: u32, base: int) -> MeshModel {
    MeshModel {
        vertices: Seq::new(10, |k: int| flat(fan_point(v1, v2, v3, k))),
        colors: colors_of(BlendColor::Red, 10),
        terrain: terrains_of((terrain, terrain, terrain), 10),
        triangles: fan_triangles(base),
    }
}

/// The quad `v1`, `v2`, `v3`, `v4` on the plane, as vertices and triangles
/// that follow `base` vertices.
pub open spec fn flat_quad(v1: Point, v2: Point, v3: Point, v4: Point, base: int) -> MeshModel {
    MeshModel {
        vertices: seq![flat(v1), flat(v2), flat(v3), flat(v4)],
        colors: Seq::empty(),
        terrain: Seq::empty(),
        triangles: Seq::new(6, |k: int| base + quad_pattern()[k]),
    }
}

/// Vertex `k` of the strip between the edges `e1` and `e2`: three quads,
/// each with two points of `e1` and then the two points of `e2` across.
pub open spec fn strip_point(e1: EdgeVertices, e2: EdgeVertices, k: int) -> Point {
    if k % 4 == 0 {
        e1.at(k / 4)
    } else if k % 4 == 1 {
        e1.at(k / 4 + 1)
    } else if k % 4 == 2 {
        e2.at(k / 4)
    } else {
        e2.at(k / 4 + 1)
    }
}

/// Colour of vertex `k` of a strip: green on the first edge, red on the
/// second.
pub open spec fn strip_color(k: int) -> BlendColor {
    if k % 4 < 2 {
        BlendColor::Green
    } else {
        BlendColor::Red
    }
}

/// The strip between the edges `e1` and `e2` on the plane, as a part of a
/// mesh that follows `base` vertices.
pub open spec fn flat_strip(
    e1: EdgeVertices,
    terrain1: u32,
    e2: EdgeVertices,
    terrain2: u32,
    base: int,
) -> MeshModel {
    MeshModel {
        vertices: Seq::new(12, |k: int| flat(strip_point(e1, e2, k))),
        colors: strip_colors(),
        terrain: terrains_of((terrain2, terrain1, terrain2), 12),
        triangles: strip_triangles(base),
    }
}

/// Adds the ten vertices of the triangle `v1`, `v2`, `v3` cut into nine.
fn push_fan_points(v1: PlanarPoint, v2: PlanarPoint, v3: PlanarPoint, data: &mut HexMeshData)
    requires
        v2@.minus(v1@).divisible_by_three(),
        v3@.minus(v2@).divisible_by_three(),
    ensures
        final(data)@ == (MeshModel {
            vertices: old(data)@.vertices + Seq::new(
                10,
                |k: int| flat(fan_point(v1@, v2@, v3@, k)),
            ),
            colors: old(data)@.colors,
            terrain: old(data)@.terrain,
            triangles: old(data)@.triangles,
        }),
{
    let va1 = v1.lerp_thirds(v2, 1);
    let va2 = v1.lerp_thirds(v2, 2);
    let vb1 = v2.lerp_thirds(v3, 1);
    let vb2 = v2.lerp_thirds(v3, 2);
    let vc1 = v3.lerp_thirds(v1, 1);
    let vc2 = v3.lerp_thirds(v1, 2);
    let c = v1.centroid_with(v2, v3);
    data.push_point(c);
    data.push_point(v1);
    data.push_point(v2);
    data.push_point(v3);
    data.push_point(va1);
    data.push_point(va2);
    data.push_point(vb1);
    data.push_point(vb2);
    data.push_point(vc1);
    data.push_point(vc2);
    assert(data@.vertices =~= old(data)@.vertices + Seq::new(
        10,
        |k: int| flat(fan_point(v1@, v2@, v3@, k)),
    ));
}

/// Adds the nine triangles of a triangle cut into nine, of which the first
/// vertex has the number `vert_idx`.
fn push_fan_triangles(vert_idx: u32, data: &mut HexMeshData)
    requires
        vert_idx + 9 <= u32::MAX,
    ensures
        final(data)@ == (MeshModel {
            vertices: old(data)@.vertices,
            colors: old(data)@.colors,
            terrain: old(data)@.terrain,
            triangles: old(data)@.triangles + fan_triangles(vert_idx as int),
        }),
{
    data.push_triangle(vert_idx + 1, vert_idx + 9, vert_idx + 4);
    data.push_triangle(vert_idx + 5, vert_idx + 4, vert_idx);
    data.push_triangle(vert_idx + 5, vert_idx + 6, vert_idx + 2);
    data.push_triangle(vert_idx, vert_idx + 7, vert_idx + 6);
    data.push_triangle(vert_idx + 8, vert_idx + 3, vert_idx + 7);
    data.push_triangle(vert_idx + 9, vert_idx + 8, vert_idx);
    data.push_triangle(vert_idx, vert_idx + 4, vert_idx + 9);
    data.push_triangle(vert_idx + 5, vert_idx, vert_idx + 6);
    data.push_triangle(vert_idx + 8, vert_idx + 7, vert_idx);
    assert(data@.triangles =~= old(data)@.triangles + fan_triangles(vert_idx as int));
}

/// A single triangle with the given places and heights, green, red and
/// blue, as a part of a mesh that follows `base` vertices.
pub open spec fn raised_triangle(
    at0: Point,
    h0: Ratio,
    at1: Point,
    h1: Ratio,
    at2: Point,
    h2: Ratio,
    terrain: (u32, u32, u32),
    base: int,
) -> MeshModel {
    MeshModel {
        vertices: seq![
            VertexModel { at: at0, height: h0 },
            VertexModel { at: at1, height: h1 },
            VertexModel { at: at2, height: h2 },
        ],
        colors: seq![BlendColor::Green, BlendColor::Red, BlendColor::Blue],
        terrain: terrains_of(terrain, 3),
        triangles: seq![base, base + 2, base + 1],
    }
}

/// Adds a single triangle with the given places and heights.
fn push_triangle_part(
    v0: PlanarPoint,
    y0: Elevation,
    v1: PlanarPoint,
    y1: Elevation,
    v2: PlanarPoint,
    y2: Elevation,
    terrain: (u32, u32, u32),
    data: &mut HexMeshData,
)
    requires
        old(data)@.vertices.len() + 3 <= u32::MAX,
    ensures
        final(data)@ == old(data)@.extend(
            raised_triangle(
                v0@,
                y0@,
                v1@,
                y1@,
                v2@,
                y2@,
                terrain,
                old(data)@.vertices.len() as int,
            ),
        ),
{
    let vert_idx: usize = data.vertex_count();
    data.push_point(v0);
    data.push_point(v1);
    data.push_point(v2);
    data.raise(vert_idx, y0);
    data.raise(vert_idx + 1, y1);
    data.raise(vert_idx + 2, y2);
    let vert_idx: u32 = vert_idx as u32;
    data.push_triangle(vert_idx, vert_idx + 2, vert_idx + 1);
    data.push_color(BlendColor::Green);
    data.push_color(BlendColor::Red);
    data.push_color(BlendColor::Blue);
    data.push_terrains(terrain, 3);
    proof {
        let part = raised_triangle(
            v0@,
            y0@,
            v1@,
            y1@,
            v2@,
            y2@,
            terrain,
            old(data)@.vertices.len() as int,
        );
        let all = old(data)@.extend(part);
        assert(data@.vertices =~= all.vertices);
        assert(data@.colors =~= all.colors);
        assert(data@.terrain =~= all.terrain);
        assert(data@.triangles =~= all.triangles);
    }
}

/// Corner `i` of the solid inner hexagon of the cell in column `a` and row
/// `b`.
pub open spec fn ring_corner(a: int, b: int, i: int) -> Point {
    cell_center(a, b).plus(solid_corner(i))
}

/// Vertex `k` of the fan of the cell in column `a` and row `b` in direction
/// `d`: of the triangle from the cell's centre to the two corners of its
/// solid hexagon in that direction, cut into nine.
pub open spec fn cell_fan_point(a: int, b: int, d: int, k: int) -> Point {
    fan_point(cell_center(a, b), ring_corner(a, b, d), ring_corner(a, b, d + 1), k)
}

/// Vertex `k` of the strip that joins the cell in column `a` and row `b` to
/// its neighbour in direction `d`: along the edge of the cell's solid
/// hexagon, and along the same edge moved across the blend ring, where it is
/// an edge of the neighbour's solid hexagon.
pub open spec fn bridge_point(a: int, b: int, d: int, k: int) -> Point {
    let v1 = ring_corner(a, b, d);
    let v4 = ring_corner(a, b, d + 1);
    let w1 = v1.plus(bridge(d));
    let w4 = v4.plus(bridge(d));
    if k % 4 == 0 {
        trisect(v1, v4, k / 4)
    } else if k % 4 == 1 {
        trisect(v1, v4, k / 4 + 1)
    } else if k % 4 == 2 {
        trisect(w1, w4, k / 4)
    } else {
        trisect(w1, w4, k / 4 + 1)
    }
}

/// The cell that gives vertex `k` of that strip its height: the cell itself
/// on its own edge, the neighbour on the edge across.
pub open spec fn bridge_owner(a: int, b: int, d: int, k: int) -> (int, int) {
    if k % 4 < 2 {
        (a, b)
    } else {
        neighbor_place(a, b, d)
    }
}

/// Vertex `k` of the triangle between the cell in column `a` and row `b`
/// and its neighbours in the directions `d` and `d + 1`: the corner of each
/// of the three solid hexagons nearest to the point where the cells meet.
pub open spec fn corner_point(a: int, b: int, d: int, k: int) -> Point {
    if k == 0 {
        ring_corner(a, b, d + 1)
    } else if k == 1 {
        ring_corner(a, b, d + 1).plus(bridge(d))
    } else {
        ring_corner(a, b, d + 1).plus(bridge((d + 1) % 6))
    }
}

/// The cell that gives vertex `k` of that triangle its height.
pub open spec fn corner_owner(a: int, b: int, d: int, k: int) -> (int, int) {
    if k == 0 {
        (a, b)
    } else if k == 1 {
        neighbor_place(a, b, d)
    } else {
        neighbor_place(a, b, (d + 1) % 6)
    }
}

/// Colour of vertex `k` of that triangle.
pub open spec fn corner_color(k: int) -> BlendColor {
    if k == 0 {
        BlendColor::Green
    } else if k == 1 {
        BlendColor::Red
    } else {
        BlendColor::Blue
    }
}

/// Last direction in which a cell makes the triangle where it meets two
/// neighbours.  Of the three cells that meet in a point, exactly one has
/// that point between two directions up to this one, so that the triangle
/// there is made once.
pub const LAST_CORNER_DIRECTION: usize = 1;

/// Last direction in which a cell makes the strip to its neighbour; the
/// strips in the three other directions are made by the neighbours.
pub const LAST_STRIP_DIRECTION: usize = 2;

/// The tables of the solid hexagon, of the ways across the blend ring and
/// of the ways to the neighbours, written out.
pub proof fn lemma_ring_tables()
    ensures
        solid_corner(0) == (Point { x: 0, z: -24 }),
        solid_corner(1) == (Point { x: -12, z: -12 }),
        solid_corner(2) == (Point { x: -12, z: 12 }),
        solid_corner(3) == (Point { x: 0, z: 24 }),
        solid_corner(4) == (Point { x: 12, z: 12 }),
        solid_corner(5) == (Point { x: 12, z: -12 }),
        solid_corner(6) == (Point { x: 0, z: -24 }),
        bridge(0) == (Point { x: -3, z: -9 }),
        bridge(1) == (Point { x: -6, z: 0 }),
        bridge(2) == (Point { x: -3, z: 9 }),
        bridge(3) == (Point { x: 3, z: 9 }),
        bridge(4) == (Point { x: 6, z: 0 }),
        bridge(5) == (Point { x: 3, z: -9 }),
        neighbor_step(0) == (Point { x: -15, z: -45 }),
        neighbor_step(1) == (Point { x: -30, z: 0 }),
        neighbor_step(2) == (Point { x: -15, z: 45 }),
        neighbor_step(3) == (Point { x: 15, z: 45 }),
        neighbor_step(4) == (Point { x: 30, z: 0 }),
        neighbor_step(5) == (Point { x: 15, z: -45 }),
{
}

/// Every vertex of a cell's fan lies in the cell's hexagon.
pub proof fn lemma_fan_point_inside(a: int, b: int, d: int, k: int)
    requires
        0 <= d < 6,
        0 <= k < 10,
    ensures
        in_hexagon(cell_fan_point(a, b, d, k).minus(cell_center(a, b))),
{
    lemma_ring_tables();
    lemma_edge_distances(cell_fan_point(a, b, d, k).minus(cell_center(a, b)));
}

/// Point `j` of the edge of a cell's solid hexagon in direction `d` lies in
/// the cell's hexagon, and the same point moved across the blend ring lies
/// in the hexagon of the neighbour in that direction.
proof fn lemma_edge_points_inside(a: int, b: int, d: int, j: int)
    requires
        0 <= d < 6,
        0 <= j <= 3,
    ensures
        in_hexagon(
            trisect(ring_corner(a, b, d), ring_corner(a, b, d + 1), j).minus(cell_center(a, b)),
        ),
        in_hexagon(
            trisect(
                ring_corner(a, b, d).plus(bridge(d)),
                ring_corner(a, b, d + 1).plus(bridge(d)),
                j,
            ).minus(cell_center(neighbor_place(a, b, d).0, neighbor_place(a, b, d).1)),
        ),
{
    lemma_ring_tables();
    lemma_neighbor_center(a, b, d);
    let c = cell_center(a, b);
    let n = cell_center(neighbor_place(a, b, d).0, neighbor_place(a, b, d).1);
    let v1 = ring_corner(a, b, d);
    let v4 = ring_corner(a, b, d + 1);
    let w1 = v1.plus(bridge(d));
    let w4 = v4.plus(bridge(d));
    if j == 0 {
        lemma_edge_distances(trisect(v1, v4, 0).minus(c));
        lemma_edge_distances(trisect(w1, w4, 0).minus(n));
    } else if j == 1 {
        lemma_edge_distances(trisect(v1, v4, 1).minus(c));
        lemma_edge_distances(trisect(w1, w4, 1).minus(n));
    } else if j == 2 {
        lemma_edge_distances(trisect(v1, v4, 2).minus(c));
        lemma_edge_distances(trisect(w1, w4, 2).minus(n));
    } else {
        lemma_edge_distances(trisect(v1, v4, 3).minus(c));
        lemma_edge_distances(trisect(w1, w4, 3).minus(n));
    }
}

/// Every vertex of a strip lies in the hexagon of the cell that gives it
/// its height.
pub proof fn lemma_bridge_point_inside(a: int, b: int, d: int, k: int)
    requires
        0 <= d < 6,
        0 <= k < 12,
    ensures
        in_hexagon(
            bridge_point(a, b, d, k).minus(
                cell_center(bridge_owner(a, b, d, k).0, bridge_owner(a, b, d, k).1),
            ),
        ),
{
    lemma_edge_points_inside(a, b, d, k / 4);
    lemma_edge_points_inside(a, b, d, k / 4 + 1);
}

/// Every vertex of a triangle between three cells lies in the hexagon of
/// the cell that gives it its height.
pub proof fn lemma_corner_point_inside(a: int, b: int, d: int, k: int)
    requires
        0 <= d < 6,
        0 <= k < 3,
    ensures
        in_hexagon(
            corner_point(a, b, d, k).minus(
                cell_center(corner_owner(a, b, d, k).0, corner_owner(a, b, d, k).1),
            ),
        ),
{
    lemma_ring_tables();
    lemma_neighbor_center(a, b, d);
    lemma_neighbor_center(a, b, (d + 1) % 6);
    lemma_edge_distances(
        corner_point(a, b, d, k).minus(
            cell_center(corner_owner(a, b, d, k).0, corner_owner(a, b, d, k).1),
        ),
    );
}

impl HexGrid {
    /// The vertex at `p` with the height that the cell at `owner` gives it.
    pub open spec fn raised(&self, p: Point, owner: (int, int)) -> VertexModel {
        VertexModel { at: p, height: self.height_at(p, self.cell_at(owner)) }
    }

    /// The vertices of the fan of the cell in column `a` and row `b` in
    /// direction `d`, of which the first `n` have their heights and the
    /// others lie on the plane.
    pub open spec fn fan_vertices(&self, a: int, b: int, d: int, n: int) -> Seq<VertexModel> {
        Seq::new(
            10,
            |k: int|
                if k < n {
                    self.raised(cell_fan_point(a, b, d, k), (a, b))
                } else {
                    flat(cell_fan_point(a, b, d, k))
                },
        )
    }

    /// The vertices of the strip that joins the cell in column `a` and row
    /// `b` to its neighbour in direction `d`, of which the first `n` have
    /// their heights and the others lie on the plane.
    pub open spec fn strip_vertices(&self, a: int, b: int, d: int, n: int) -> Seq<VertexModel> {
        Seq::new(
            12,
            |k: int|
                if k < n {
                    self.raised(bridge_point(a, b, d, k), bridge_owner(a, b, d, k))
                } else {
                    flat(bridge_point(a, b, d, k))
                },
        )
    }

    /// The fan of the cell in column `a` and row `b` in direction `d`, as a
    /// part of a mesh that follows `base` vertices.
    pub open spec fn fan_mesh(&self, a: int, b: int, d: int, base: int) -> MeshModel {
        let t = self.cells[a][b].terrain;
        MeshModel {
            vertices: self.fan_vertices(a, b, d, 10),
            colors: colors_of(BlendColor::Red, 10),
            terrain: terrains_of((t, t, t), 10),
            triangles: fan_triangles(base),
        }
    }

    /// The strip that joins the cell in column `a` and row `b` to its
    /// neighbour in direction `d`, as a part of a mesh that follows `base`
    /// vertices.
    pub open spec fn strip_mesh(&self, a: int, b: int, d: int, base: int) -> MeshModel {
        let own = self.cells[a][b].terrain;
        let other = self.cell_at(neighbor_place(a, b, d)).terrain;
        MeshModel {
            vertices: self.strip_vertices(a, b, d, 12),
            colors: strip_colors(),
            terrain: terrains_of((other, own, other), 12),
            triangles: strip_triangles(base),
        }
    }

    /// The triangle between the cell in column `a` and row `b` and its
    /// neighbours in the directions `d` and `d + 1`, as a part of a mesh that
    /// follows `base` vertices.
    pub open spec fn corner_mesh(&self, a: int, b: int, d: int, base: int) -> MeshModel {
        let own = self.cells[a][b].terrain;
        let other = self.cell_at(neighbor_place(a, b, d)).terrain;
        let next = self.cell_at(neighbor_place(a, b, (d + 1) % 6)).terrain;
        MeshModel {
            vertices: Seq::new(
                3,
                |k: int| self.raised(corner_point(a, b, d, k), corner_owner(a, b, d, k)),
            ),
            colors: Seq::new(3, |k: int| corner_color(k)),
            terrain: terrains_of((other, own, next), 3),
            triangles: seq![base, base + 2, base + 1],
        }
    }

    /// What joins the cell in column `a` and row `b` to its neighbour in
    /// direction `d`: nothing where the grid ends; else the strip, and after
    /// it, up to the last corner direction and where the cell has a
    /// neighbour in the next direction too, the triangle between the three.
    pub open spec fn connection_mesh(&self, a: int, b: int, d: int, base: int) -> MeshModel {
        if neighbor_index(a, b, d, self.columns(), self.rows()) is None {
            MeshModel::empty()
        } else if d <= LAST_CORNER_DIRECTION && neighbor_index(
            a,
            b,
            (d + 1) % 6,
            self.columns(),
            self.rows(),
        ) is Some {
            self.strip_mesh(a, b, d, base).extend(self.corner_mesh(a, b, d, base + 12))
        } else {
            self.strip_mesh(a, b, d, base)
        }
    }

    /// What the cell in column `a` and row `b` adds to the mesh for
    /// direction `d`: its fan, and up to the last strip direction what joins
    /// it to its neighbour.
    pub open spec fn direction_mesh(&self, a: int, b: int, d: int, base: int) -> MeshModel {
        if d <= LAST_STRIP_DIRECTION {
            self.fan_mesh(a, b, d, base).extend(self.connection_mesh(a, b, d, base + 10))
        } else {
            self.fan_mesh(a, b, d, base)
        }
    }

    /// What the cell in column `a` and row `b` adds to the mesh for its
    /// first `n` directions.
    pub open spec fn cell_mesh_upto(&self, a: int, b: int, n: int, base: int) -> MeshModel
        decreases n,
    {
        if n <= 0 {
            MeshModel::empty()
        } else {
            let before = self.cell_mesh_upto(a, b, n - 1, base);
            before.extend(self.direction_mesh(a, b, n - 1, base + before.vertices.len()))
        }
    }

    /// What the cell in column `a` and row `b` adds to a mesh of `base`
    /// vertices.
    pub open spec fn cell_mesh(&self, a: int, b: int, base: int) -> MeshModel {
        self.cell_mesh_upto(a, b, 6, base)
    }

    /// The mesh of the cells that come before column `x`, row `z`, column by
    /// column.
    pub open spec fn mesh_before(&self, x: int, z: int) -> MeshModel
        decreases x, z,
    {
        if z > 0 {
            let before = self.mesh_before(x, z - 1);
            before.extend(self.cell_mesh(x, z - 1, before.vertices.len() as int))
        } else if x > 0 && self.rows() >= 0 {
            self.mesh_before(x - 1, self.rows())
        } else {
            MeshModel::empty()
        }
    }

    /// The triangles of all cells in the order in which they are made.
    pub open spec fn gathered(&self) -> MeshModel {
        self.mesh_before(self.columns(), 0)
    }
}

impl HexGrid {
    /// Cuts the triangle `v1`, `v2`, `v3` into nine and adds them to `data`,
    /// on the plane, in red and with the one terrain.
    pub fn subdivide_triangle(
        &self,
        v1: PlanarPoint,
        v2: PlanarPoint,
        v3: PlanarPoint,
        terrain: u32,
        data: &mut HexMeshData,
    )
        requires
            v2@.minus(v1@).divisible_by_three(),
            v3@.minus(v2@).divisible_by_three(),
            old(data)@.vertices.len() + 10 <= u32::MAX,
        ensures
            final(data)@ == old(data)@.extend(
                flat_fan(v1@, v2@, v3@, terrain, old(data)@.vertices.len() as int),
            ),
    {
        let vert_idx: u32 = data.vertex_count() as u32;
        push_fan_points(v1, v2, v3, data);
        data.push_colors(BlendColor::Red, 10);
        data.push_terrains((terrain, terrain, terrain), 10);
        push_fan_triangles(vert_idx, data);
    }

    /// Adds the quad `v1`, `v2`, `v3`, `v4` to `data`, on the plane, as two
    /// triangles; colours and terrain are left to the caller.
    pub fn add_quad(
        v1: PlanarPoint,
        v2: PlanarPoint,
        v3: PlanarPoint,
        v4: PlanarPoint,
        data: &mut HexMeshData,
    )
        requires
            old(data)@.vertices.len() + 4 <= u32::MAX,
        ensures
            final(data)@ == old(data)@.extend(
                flat_quad(v1@, v2@, v3@, v4@, old(data)@.vertices.len() as int),
            ),
    {
        let vert_idx: u32 = data.vertex_count() as u32;
        data.push_point(v1);
        data.push_point(v2);
        data.push_point(v3);
        data.push_point(v4);
        data.push_triangle(vert_idx, vert_idx + 1, vert_idx + 2);
        data.push_triangle(vert_idx + 1, vert_idx + 3, vert_idx + 2);
        proof {
            let part = flat_quad(v1@, v2@, v3@, v4@, old(data)@.vertices.len() as int);
            let all = old(data)@.extend(part);
            assert(data@.vertices =~= all.vertices);
            assert(data@.colors =~= all.colors);
            assert(data@.terrain =~= all.terrain);
            assert(data@.triangles =~= all.triangles);
        }
    }

    /// Adds the strip of three quads between the edges `e1` and `e2` to
    /// `data`, on the plane.  The vertices on `e1` are green and those on
    /// `e2` red; the terrain triple of each vertex holds `terrain1` in its
    /// green place and `terrain2` in the two others.
    pub fn triangulate_edge_strip(
        &self,
        e1: &EdgeVertices,
        terrain1: u32,
        e2: &EdgeVertices,
        terrain2: u32,
        data: &mut HexMeshData,
    )
        requires
            old(data)@.vertices.len() + 12 <= u32::MAX,
        ensures
            final(data)@ == old(data)@.extend(
                flat_strip(*e1, terrain1, *e2, terrain2, old(data)@.vertices.len() as int),
            ),
    {
        let terrain = (terrain2, terrain1, terrain2);
        Self::add_quad(e1.v1, e1.v2, e2.v1, e2.v2, data);
        data.push_colors(BlendColor::Green, 2);
        data.push_colors(BlendColor::Red, 2);
        Self::add_quad(e1.v2, e1.v3, e2.v2, e2.v3, data);
        data.push_colors(BlendColor::Green, 2);
        data.push_colors(BlendColor::Red, 2);
        Self::add_quad(e1.v3, e1.v4, e2.v3, e2.v4, data);
        data.push_colors(BlendColor::Green, 2);
        data.push_colors(BlendColor::Red, 2);
        data.push_terrains(terrain, 12);
        proof {
            let part = flat_strip(*e1, terrain1, *e2, terrain2, old(data)@.vertices.len() as int);
            let all = old(data)@.extend(part);
            assert(data@.vertices =~= all.vertices);
            assert(data@.colors =~= all.colors);
            assert(data@.terrain =~= all.terrain);
            assert(data@.triangles =~= all.triangles);
        }
    }
}

/// Most vertices that a cell adds to the mesh for its first `n` directions.
pub open spec fn direction_budget(n: int) -> int {
    if n <= 0 {
        0
    } else if n == 1 {
        25
    } else if n == 2 {
        50
    } else if n == 3 {
        72
    } else {
        72 + 10 * (n - 3)
    }
}

/// Most vertices that one cell adds to the mesh.
pub const MAX_CELL_VERTICES: usize = 102;

/// The points of a well-formed edge are those that cut it into thirds.
proof fn lemma_edge_at(e: EdgeVertices, j: int)
    requires
        e.wf(),
        0 <= j <= 3,
    ensures
        e.at(j) == trisect(e.v1@, e.v4@, j),
{
    if j == 0 {
        assert(e.at(0) == trisect(e.v1@, e.v4@, 0));
    } else if j == 1 {
        assert(e.at(1) == trisect(e.v1@, e.v4@, 1));
    } else if j == 2 {
        assert(e.at(2) == trisect(e.v1@, e.v4@, 2));
    } else {
        assert(e.at(3) == trisect(e.v1@, e.v4@, 3));
    }
}

impl HexGrid {
    /// The centre of a cell of a well-formed grid, and every point within a
    /// hexagon's width of it, fits the lattice.
    pub proof fn lemma_center_bounds(&self, a: int, b: int)
        requires
            self.wf(),
            self.in_grid(a, b),
        ensures
            0 <= cell_center(a, b).x <= 1_200_000_015,
            -1_800_000_000 <= cell_center(a, b).z <= 0,
            self.cells[a][b].position@ == cell_center(a, b),
    {
        lemma_place_within_cells(a, b, self.columns(), self.rows());
        assert(self.cells[a][b].wf_at(a, b, self.columns(), self.rows()));
    }

    /// What a well-formed grid says of the neighbour that a cell holds.
    proof fn lemma_held_neighbor(&self, a: int, b: int, d: int)
        requires
            self.wf(),
            self.in_grid(a, b),
            0 <= d < 6,
        ensures
            ref_model(self.cells[a][b].neighbor_cell_refs[d]) == neighbor_index(
                a,
                b,
                d,
                self.columns(),
                self.rows(),
            ),
            self.cells[a][b].neighbor_cell_refs[d] is Some ==> {
                &&& pair_model(self.cells[a][b].neighbor_cell_refs[d].unwrap()) == neighbor_place(
                    a,
                    b,
                    d,
                )
                &&& self.in_grid(neighbor_place(a, b, d).0, neighbor_place(a, b, d).1)
            },
    {
        assert(self.cells[a][b].wf_at(a, b, self.columns(), self.rows()));
    }

    /// Gives the ten vertices of a fan, the last ten of `data`, the heights
    /// that the cell gives them.
    fn raise_fan(&self, x: usize, z: usize, dir: usize, data: &mut HexMeshData)
        requires
            self.wf(),
            self.in_grid(x as int, z as int),
            dir < 6,
            old(data)@.vertices.len() >= 10,
            old(data)@.vertices.subrange(
                old(data)@.vertices.len() - 10,
                old(data)@.vertices.len() as int,
            ) == self.fan_vertices(x as int, z as int, dir as int, 0),
        ensures
            final(data)@.vertices == old(data)@.vertices.subrange(
                0,
                old(data)@.vertices.len() - 10,
            ) + self.fan_vertices(x as int, z as int, dir as int, 10),
            final(data)@.colors == old(data)@.colors,
            final(data)@.terrain == old(data)@.terrain,
            final(data)@.triangles == old(data)@.triangles,
    {
        let cell = &self.cells[x][z];
        let pre: usize = data.vertex_count() - 10;
        let ghost head = data@.vertices.subrange(0, pre as int);
        proof {
            self.lemma_refs_in_lattice(x as int, z as int);
            self.lemma_center_bounds(x as int, z as int);
            assert(data@.vertices =~= head + self.fan_vertices(x as int, z as int, dir as int, 0));
        }
        for k in 0..10usize
            invariant
                self.wf(),
                self.in_grid(x as int, z as int),
                dir < 6,
                *cell == self.cells[x as int][z as int],
                self.holds_refs_of(*cell),
                cell.position@ == cell_center(x as int, z as int),
                head.len() == pre,
                data.vertices.len() == pre + 10,
                data@.vertices == head + self.fan_vertices(x as int, z as int, dir as int, k as int),
                data@.colors == old(data)@.colors,
                data@.terrain == old(data)@.terrain,
                data@.triangles == old(data)@.triangles,
        {
            let ghost before = data@;
            let p = data.vertices[pre + k].point();
            proof {
                assert(p@ == before.vertices[pre + k].at);
                assert(before.vertices[pre + k] == self.fan_vertices(
                    x as int,
                    z as int,
                    dir as int,
                    k as int,
                )[k as int]);
                lemma_fan_point_inside(x as int, z as int, dir as int, k as int);
            }
            let y = self.calc_height(p, cell);
            data.raise(pre + k, y);
            assert(data@.vertices =~= head + self.fan_vertices(
                x as int,
                z as int,
                dir as int,
                k as int + 1,
            ));
        }
    }

    /// Gives the twelve vertices of a strip, the last twelve of `data`,
    /// their heights: those on the cell's edge from the cell, those on the
    /// edge across from the neighbour.
    #[verifier::rlimit(30)]
    fn raise_strip(&self, x: usize, z: usize, dir: usize, data: &mut HexMeshData)
        requires
            self.wf(),
            self.in_grid(x as int, z as int),
            dir < 6,
            self.cells[x as int][z as int].neighbor_cell_refs[dir as int] is Some,
            old(data)@.vertices.len() >= 12,
            old(data)@.vertices.subrange(
                old(data)@.vertices.len() - 12,
                old(data)@.vertices.len() as int,
            ) == self.strip_vertices(x as int, z as int, dir as int, 0),
        ensures
            final(data)@.vertices == old(data)@.vertices.subrange(
                0,
                old(data)@.vertices.len() - 12,
            ) + self.strip_vertices(x as int, z as int, dir as int, 12),
            final(data)@.colors == old(data)@.colors,
            final(data)@.terrain == old(data)@.terrain,
            final(data)@.triangles == old(data)@.triangles,
    {
        let cell = &self.cells[x][z];
        proof {
            self.lemma_held_neighbor(x as int, z as int, dir as int);
        }
        let (nx, nz) = cell.neighbor_cell_refs[dir].unwrap();
        let neighbor = &self.cells[nx][nz];
        let vert_idx: usize = data.vertex_count();
        let ghost head = data@.vertices.subrange(0, vert_idx - 12);
        proof {
            self.lemma_refs_in_lattice(x as int, z as int);
            self.lemma_center_bounds(x as int, z as int);
            self.lemma_refs_in_lattice(nx as int, nz as int);
            self.lemma_center_bounds(nx as int, nz as int);
            assert(data@.vertices =~= head + self.strip_vertices(x as int, z as int, dir as int, 0));
        }
        for idx in 0..12usize
            invariant
                self.wf(),
                self.in_grid(x as int, z as int),
                dir < 6,
                *cell == self.cells[x as int][z as int],
                *neighbor == self.cells[nx as int][nz as int],
                (nx as int, nz as int) == neighbor_place(x as int, z as int, dir as int),
                self.holds_refs_of(*cell),
                self.holds_refs_of(*neighbor),
                cell.position@ == cell_center(x as int, z as int),
                neighbor.position@ == cell_center(nx as int, nz as int),
                vert_idx >= 12,
                head.len() == vert_idx - 12,
                data.vertices.len() == vert_idx,
                data@.vertices == head + self.strip_vertices(
                    x as int,
                    z as int,
                    dir as int,
                    idx as int,
                ),
                data@.colors == old(data)@.colors,
                data@.terrain == old(data)@.terrain,
                data@.triangles == old(data)@.triangles,
        {
            let ghost before = data@;
            let i: usize = vert_idx - 12 + idx;
            let p = data.vertices[i].point();
            proof {
                assert(p@ == before.vertices[i as int].at);
                assert(before.vertices[i as int] == self.strip_vertices(
                    x as int,
                    z as int,
                    dir as int,
                    idx as int,
                )[idx as int]);
                lemma_bridge_point_inside(x as int, z as int, dir as int, idx as int);
            }
            let y = if idx % 4 < 2 {
                self.calc_height(p, cell)
            } else {
                self.calc_height(p, neighbor)
            };
            data.raise(i, y);
            assert(data@.vertices =~= head + self.strip_vertices(
                x as int,
                z as int,
                dir as int,
                idx as int + 1,
            ));
        }
    }

    /// Vertex `k` of the triangle between the cell in column `x` and row `z`
    /// and its neighbours in the directions `dir` and `dir + 1`: its place
    /// and the height that its own cell gives it.
    fn corner_vertex(&self, dir: usize, x: usize, z: usize, k: usize) -> (r: (
        PlanarPoint,
        Elevation,
    ))
        requires
            self.wf(),
            self.in_grid(x as int, z as int),
            dir < 6,
            k < 3,
            self.cells[x as int][z as int].neighbor_cell_refs[dir as int] is Some,
            self.cells[x as int][z as int].neighbor_cell_refs[(dir + 1) % 6] is Some,
        ensures
            r.0@ == corner_point(x as int, z as int, dir as int, k as int),
            r.1@ == self.raised(
                corner_point(x as int, z as int, dir as int, k as int),
                corner_owner(x as int, z as int, dir as int, k as int),
            ).height,
    {
        let next_dir: usize = (dir + 1) % 6;
        let cell = &self.cells[x][z];
        proof {
            self.lemma_held_neighbor(x as int, z as int, dir as int);
            self.lemma_held_neighbor(x as int, z as int, next_dir as int);
            self.lemma_center_bounds(x as int, z as int);
            lemma_ring_tables();
            lemma_corner_point_inside(x as int, z as int, dir as int, k as int);
        }
        let v0 = cell.position.translate(scaled_corner(dir + 1));
        if k == 0 {
            proof {
                self.lemma_refs_in_lattice(x as int, z as int);
            }
            (v0, self.calc_height(v0, cell))
        } else if k == 1 {
            let (nx, nz) = cell.neighbor_cell_refs[dir].unwrap();
            let neighbor = &self.cells[nx][nz];
            proof {
                self.lemma_refs_in_lattice(nx as int, nz as int);
                self.lemma_center_bounds(nx as int, nz as int);
            }
            let v1 = v0.translate(blend_bridge(dir));
            (v1, self.calc_height(v1, neighbor))
        } else {
            let (x2, z2) = cell.neighbor_cell_refs[next_dir].unwrap();
            let next_neighbor = &self.cells[x2][z2];
            proof {
                self.lemma_refs_in_lattice(x2 as int, z2 as int);
                self.lemma_center_bounds(x2 as int, z2 as int);
            }
            let v2 = v0.translate(blend_bridge(next_dir));
            (v2, self.calc_height(v2, next_neighbor))
        }
    }

    /// The terrain triple of the triangle between the cell in column `x`
    /// and row `z` and its neighbours in the directions `dir` and `dir + 1`.
    fn corner_terrain(&self, dir: usize, x: usize, z: usize) -> (t: (u32, u32, u32))
        requires
            self.wf(),
            self.in_grid(x as int, z as int),
            dir < 6,
            self.cells[x as int][z as int].neighbor_cell_refs[dir as int] is Some,
            self.cells[x as int][z as int].neighbor_cell_refs[(dir + 1) % 6] is Some,
        ensures
            t == (
                self.cell_at(neighbor_place(x as int, z as int, dir as int)).terrain,
                self.cells[x as int][z as int].terrain,
                self.cell_at(neighbor_place(x as int, z as int, (dir + 1) % 6)).terrain,
            ),
    {
        let next_dir: usize = (dir + 1) % 6;
        let cell = &self.cells[x][z];
        proof {
            self.lemma_held_neighbor(x as int, z as int, dir as int);
            self.lemma_held_neighbor(x as int, z as int, next_dir as int);
        }
        let (nx, nz) = cell.neighbor_cell_refs[dir].unwrap();
        let (x2, z2) = cell.neighbor_cell_refs[next_dir].unwrap();
        (self.cells[nx][nz].terrain, cell.terrain, self.cells[x2][z2].terrain)
    }

    /// Adds the triangle between the cell in column `x` and row `z` and its
    /// neighbours in the directions `dir` and `dir + 1`, each vertex with the
    /// height that its own cell gives it.
    fn add_corner(&self, dir: usize, x: usize, z: usize, data: &mut HexMeshData)
        requires
            self.wf(),
            self.in_grid(x as int, z as int),
            dir < 6,
            self.cells[x as int][z as int].neighbor_cell_refs[dir as int] is Some,
            self.cells[x as int][z as int].neighbor_cell_refs[(dir + 1) % 6] is Some,
            old(data)@.vertices.len() + 3 <= u32::MAX,
        ensures
            final(data)@ == old(data)@.extend(
                self.corner_mesh(x as int, z as int, dir as int, old(data)@.vertices.len() as int),
            ),
    {
        let (v0, y0) = self.corner_vertex(dir, x, z, 0);
        let (v1, y1) = self.corner_vertex(dir, x, z, 1);
        let (v2, y2) = self.corner_vertex(dir, x, z, 2);
        let terrain = self.corner_terrain(dir, x, z);
        let ghost start = data@;
        push_triangle_part(v0, y0, v1, y1, v2, y2, terrain, data);
        proof {
            let part = self.corner_mesh(x as int, z as int, dir as int, start.vertices.len() as int);
            let made = raised_triangle(
                v0@,
                y0@,
                v1@,
                y1@,
                v2@,
                y2@,
                terrain,
                start.vertices.len() as int,
            );
            assert(part.vertices =~= made.vertices);
            assert(part.colors =~= made.colors);
        }
    }

    /// Joins the cell in column `x` and row `z` to its neighbour in
    /// direction `dir`, if it has one: adds the strip between the edge `e1`
    /// of the cell's solid hexagon and the same edge moved across the blend
    /// ring, and up to the last corner direction, where the cell has a
    /// neighbour in the next direction too, the triangle between the three
    /// cells.  Each vertex gets the height that its own cell gives it.
    /// Where the grid ends in direction `dir`, nothing is added.
    pub fn triangulate_connection(
        &self,
        dir: usize,
        x: usize,
        z: usize,
        e1: EdgeVertices,
        data: &mut HexMeshData,
    )
        requires
            self.wf(),
            self.in_grid(x as int, z as int),
            dir < 6,
            e1.wf(),
            e1.v1@ == ring_corner(x as int, z as int, dir as int),
            e1.v4@ == ring_corner(x as int, z as int, dir + 1),
            old(data)@.vertices.len() + (if dir <= LAST_CORNER_DIRECTION {
                15int
            } else {
                12int
            }) <= u32::MAX,
        ensures
            final(data)@ == old(data)@.extend(
                self.connection_mesh(
                    x as int,
                    z as int,
                    dir as int,
                    old(data)@.vertices.len() as int,
                ),
            ),
    {
        let cell = &self.cells[x][z];
        let ghost start = data@;
        let ghost base = start.vertices.len() as int;
        proof {
            self.lemma_held_neighbor(x as int, z as int, dir as int);
            self.lemma_held_neighbor(x as int, z as int, (dir + 1) % 6);
            start.lemma_extend_laws(MeshModel::empty(), MeshModel::empty());
        }
        match cell.neighbor_cell_refs[dir] {
            Some((nx, nz)) => {
                let neighbor = &self.cells[nx][nz];
                proof {
                    self.lemma_center_bounds(x as int, z as int);
                    lemma_ring_tables();
                }
                let bridge = blend_bridge(dir);
                let e2 = EdgeVertices::new(e1.v1.translate(bridge), e1.v4.translate(bridge));
                self.triangulate_edge_strip(&e1, cell.terrain, &e2, neighbor.terrain, data);
                proof {
                    let part = flat_strip(e1, cell.terrain, e2, neighbor.terrain, base);
                    assert forall|k: int| 0 <= k < 12 implies strip_point(e1, e2, k)
                        == bridge_point(x as int, z as int, dir as int, k) by {
                        lemma_edge_at(e1, k / 4);
                        lemma_edge_at(e1, k / 4 + 1);
                        lemma_edge_at(e2, k / 4);
                        lemma_edge_at(e2, k / 4 + 1);
                    }
                    assert(part.vertices =~= self.strip_vertices(x as int, z as int, dir as int, 0));
                    assert(data@.vertices.subrange(base, base + 12) =~= part.vertices);
                    assert(data@.vertices.subrange(0, base) =~= start.vertices);
                }
                self.raise_strip(x, z, dir, data);
                assert(data@ == start.extend(self.strip_mesh(x as int, z as int, dir as int, base)));
                if dir <= LAST_CORNER_DIRECTION {
                    if cell.neighbor_cell_refs[(dir + 1) % 6].is_some() {
                        self.add_corner(dir, x, z, data);
                        proof {
                            start.lemma_extend_laws(
                                self.strip_mesh(x as int, z as int, dir as int, base),
                                self.corner_mesh(x as int, z as int, dir as int, base + 12),
                            );
                        }
                    }
                }
            },
            None => {},
        }
    }

    /// What the cell in column `x` and row `z` adds for direction `dir`: the
    /// fan inside the cell, each vertex with the height the cell gives it,
    /// and up to the last strip direction what joins the cell to its
    /// neighbour in that direction.
    fn triangulate_direction(&self, dir: usize, x: usize, z: usize, data: &mut HexMeshData)
        requires
            self.wf(),
            self.in_grid(x as int, z as int),
            dir < 6,
            old(data)@.vertices.len() + direction_budget(dir + 1) - direction_budget(dir as int)
                <= u32::MAX,
        ensures
            final(data)@ == old(data)@.extend(
                self.direction_mesh(x as int, z as int, dir as int, old(data)@.vertices.len() as int),
            ),
    {
        let cell = &self.cells[x][z];
        let ghost start = data@;
        let ghost base = start.vertices.len() as int;
        proof {
            self.lemma_center_bounds(x as int, z as int);
            lemma_ring_tables();
        }
        let from = cell.position.translate(scaled_corner(dir));
        let to = cell.position.translate(scaled_corner(dir + 1));
        self.subdivide_triangle(cell.position, from, to, cell.terrain, data);
        proof {
            let part = flat_fan(cell.position@, from@, to@, cell.terrain, base);
            assert(part.vertices =~= self.fan_vertices(x as int, z as int, dir as int, 0));
            assert(data@.vertices.subrange(base, base + 10) =~= part.vertices);
            assert(data@.vertices.subrange(0, base) =~= start.vertices);
        }
        self.raise_fan(x, z, dir, data);
        assert(data@ == start.extend(self.fan_mesh(x as int, z as int, dir as int, base)));
        if dir <= LAST_STRIP_DIRECTION {
            let e = EdgeVertices::new(from, to);
            self.triangulate_connection(dir, x, z, e, data);
            proof {
                start.lemma_extend_laws(
                    self.fan_mesh(x as int, z as int, dir as int, base),
                    self.connection_mesh(x as int, z as int, dir as int, base + 10),
                );
            }
        }
    }

    /// Adds the triangles of the cell in column `x` and row `z` to `data`:
    /// for each direction the fan inside the cell, each vertex with the
    /// height the cell gives it, and up to the last strip direction what
    /// joins the cell to its neighbour in that direction.
    pub fn triangulate_cell(&self, x: usize, z: usize, data: &mut HexMeshData)
        requires
            self.wf(),
            self.in_grid(x as int, z as int),
            old(data)@.vertices.len() + MAX_CELL_VERTICES <= u32::MAX,
        ensures
            final(data)@ == old(data)@.extend(
                self.cell_mesh(x as int, z as int, old(data)@.vertices.len() as int),
            ),
            self.cell_mesh(x as int, z as int, old(data)@.vertices.len() as int).vertices.len()
                <= MAX_CELL_VERTICES,
    {
        let ghost start = data@;
        let ghost base = start.vertices.len() as int;
        proof {
            start.lemma_extend_laws(MeshModel::empty(), MeshModel::empty());
        }
        for dir in 0..6usize
            invariant
                self.wf(),
                self.in_grid(x as int, z as int),
                base == start.vertices.len(),
                base + MAX_CELL_VERTICES <= u32::MAX,
                data@ == start.extend(self.cell_mesh_upto(x as int, z as int, dir as int, base)),
                self.cell_mesh_upto(x as int, z as int, dir as int, base).vertices.len()
                    <= direction_budget(dir as int),
        {
            let ghost sofar = self.cell_mesh_upto(x as int, z as int, dir as int, base);
            let ghost at = base + sofar.vertices.len();
            self.triangulate_direction(dir, x, z, data);
            proof {
                self.lemma_connection_size(x as int, z as int, dir as int, at + 10);
                start.lemma_extend_laws(
                    sofar,
                    self.direction_mesh(x as int, z as int, dir as int, at),
                );
            }
        }
    }

    /// What joins a cell to a neighbour has at most fifteen vertices, and
    /// after the last corner direction at most twelve.
    proof fn lemma_connection_size(&self, a: int, b: int, d: int, base: int)
        ensures
            self.connection_mesh(a, b, d, base).vertices.len() <= 15,
            d > LAST_CORNER_DIRECTION ==> self.connection_mesh(a, b, d, base).vertices.len() <= 12,
    {
    }

    /// The mesh of the whole grid: the triangles of every cell, column by
    /// column, with the order of the triangle corners reversed as a whole.
    pub open spec fn mesh(&self) -> MeshModel {
        self.gathered().rewound()
    }

    /// Triangulates every cell anew and gathers the mesh of the whole grid.
    /// The mesh depends on nothing but the grid.
    pub fn triangulate_grid(&self) -> (mesh: MeshBuffers)
        requires
            self.wf(),
        ensures
            mesh@ == self.mesh(),
            mesh@.wf(),
    {
        proof {
            self.lemma_mesh_is_consistent();
        }
        let mut data = HexMeshData::new();
        let columns: usize = self.cells.len();
        for x in 0..columns
            invariant
                self.wf(),
                columns == self.columns(),
                data@ == self.mesh_before(x as int, 0),
                data@.vertices.len() <= MAX_CELL_VERTICES * (x * self.rows()),
        {
            let rows: usize = self.cells[x].len();
            for z in 0..rows
                invariant
                    self.wf(),
                    x < columns,
                    columns == self.columns(),
                    rows == self.rows(),
                    data@ == self.mesh_before(x as int, z as int),
                    data@.vertices.len() <= MAX_CELL_VERTICES * (x * self.rows() + z),
            {
                proof {
                    lemma_place_within_cells(x as int, z as int, self.columns(), self.rows());
                    assert(MAX_CELL_VERTICES * (x * self.rows() + z) + MAX_CELL_VERTICES
                        <= MAX_CELL_VERTICES * MAX_CELLS) by (nonlinear_arith)
                        requires
                            x * self.rows() + z < self.columns() * self.rows(),
                            self.columns() * self.rows() <= MAX_CELLS,
                    ;
                    assert(MAX_CELL_VERTICES * (x * self.rows() + (z + 1)) == MAX_CELL_VERTICES * (
                    x * self.rows() + z) + MAX_CELL_VERTICES) by (nonlinear_arith);
                }
                self.triangulate_cell(x, z, &mut data);
            }
            proof {
                assert((x + 1) * self.rows() == x * self.rows() + self.rows())
                    by (nonlinear_arith);
            }
        }
        let mut indices: Vec<u32> = Vec::new();
        let mut i: usize = data.triangles.len();
        while i > 0
            invariant
                i <= data.triangles.len(),
                indices.len() == data.triangles.len() - i,
                forall|j: int|
                    0 <= j < indices.len() ==> #[trigger] indices[j] == data.triangles[
                        data.triangles.len() - 1 - j],
            decreases i,
        {
            i -= 1;
            indices.push(data.triangles[i]);
        }
        let mesh = MeshBuffers {
            positions: data.vertices,
            colors: data.colors,
            terrain_ids: data.vert_terrain,
            indices,
        };
        assert(mesh@.triangles =~= self.gathered().triangles.reverse());
        mesh
    }
}


} // verus!
