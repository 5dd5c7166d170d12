//! What holds of the mesh of every grid: its buffers are consistent, the
//! strips meet the fans of the neighbours, every point where three cells
//! meet has one triangle, and each colour picks the terrain of the cell
//! that gave the vertex its height.

use vstd::prelude::*;
use crate::geometry::{bridge, cell_center, hex_corner, trisect, Point};
use crate::grid::HexGrid;
use crate::topology::{lemma_neighbor_center, neighbor_index, neighbor_place};
use crate::mesh::{MeshBuffers, MeshModel};
use crate::triangulate::{
    bridge_owner, corner_owner, fan_pattern, lemma_ring_tables, quad_pattern, ring_corner,
    LAST_CORNER_DIRECTION,
};

verus! {

/// Every triangle corner of a fan names one of its ten vertices.
proof fn lemma_fan_pattern_range(k: int)
    requires
        0 <= k < 27,
    ensures
        0 <= fan_pattern()[k] < 10,
{
}

/// Every triangle corner of a quad names one of its four vertices.
proof fn lemma_quad_pattern_range(k: int)
    requires
        0 <= k < 6,
    ensures
        0 <= quad_pattern()[k] < 4,
{
}

/// A part that fits, followed by a part that fits after it, fits.
proof fn lemma_extend_fits(p: MeshModel, q: MeshModel, base: int)
    requires
        p.fits_at(base),
        q.fits_at(base + p.vertices.len()),
    ensures
        p.extend(q).fits_at(base),
{
    let all = p.extend(q);
    assert forall|i: int| 0 <= i < all.triangles.len() implies base <= #[trigger] all.triangles[i]
        < base + all.vertices.len() by {
        if i >= p.triangles.len() {
            assert(all.triangles[i] == q.triangles[i - p.triangles.len()]);
        } else {
            assert(all.triangles[i] == p.triangles[i]);
        }
    }
}

impl HexGrid {
    /// What a cell adds for one direction fits the mesh before it, and has
    /// at most 25 vertices, and after the last strip direction ten.
    proof fn lemma_direction_fits(&self, a: int, b: int, d: int, base: int)
        requires
            0 <= d < 6,
        ensures
            self.direction_mesh(a, b, d, base).fits_at(base),
            self.direction_mesh(a, b, d, base).vertices.len() <= (if d <= LAST_CORNER_DIRECTION {
                25int
            } else if d == 2 {
                22int
            } else {
                10int
            }),
    {
        let fan = self.fan_mesh(a, b, d, base);
        assert(fan.fits_at(base)) by {
            assert forall|i: int| 0 <= i < fan.triangles.len() implies base
                <= #[trigger] fan.triangles[i] < base + fan.vertices.len() by {
                lemma_fan_pattern_range(i);
            }
        }
        let strip = self.strip_mesh(a, b, d, base + 10);
        assert(strip.fits_at(base + 10)) by {
            assert forall|i: int| 0 <= i < strip.triangles.len() implies base + 10
                <= #[trigger] strip.triangles[i] < base + 10 + strip.vertices.len() by {
                lemma_quad_pattern_range(i % 6);
            }
        }
        let corner = self.corner_mesh(a, b, d, base + 22);
        assert(corner.fits_at(base + 22));
        assert(MeshModel::empty().fits_at(base + 10));
        lemma_extend_fits(strip, corner, base + 10);
        lemma_extend_fits(fan, self.connection_mesh(a, b, d, base + 10), base);
    }

    /// What a cell adds for its first `n` directions fits the mesh before
    /// it.
    proof fn lemma_cell_fits(&self, a: int, b: int, n: int, base: int)
        requires
            0 <= n <= 6,
        ensures
            self.cell_mesh_upto(a, b, n, base).fits_at(base),
            self.cell_mesh_upto(a, b, n, base).vertices.len() <= 25 * n,
            n == 6 ==> self.cell_mesh_upto(a, b, n, base).vertices.len() <= 102,
            n >= 3 ==> self.cell_mesh_upto(a, b, n, base).vertices.len() <= 72 + 10 * (n - 3),
        decreases n,
    {
        if n > 0 {
            let before = self.cell_mesh_upto(a, b, n - 1, base);
            self.lemma_cell_fits(a, b, n - 1, base);
            self.lemma_direction_fits(a, b, n - 1, base + before.vertices.len());
            lemma_extend_fits(
                before,
                self.direction_mesh(a, b, n - 1, base + before.vertices.len()),
                base,
            );
        } else {
            assert(MeshModel::empty().fits_at(base));
        }
    }

    /// The mesh of the cells before any place is consistent.
    proof fn lemma_mesh_before_wf(&self, x: int, z: int)
        requires
            0 <= x,
            0 <= z,
        ensures
            self.mesh_before(x, z).wf(),
        decreases x, z,
    {
        if z > 0 {
            let before = self.mesh_before(x, z - 1);
            self.lemma_mesh_before_wf(x, z - 1);
            self.lemma_cell_fits(x, z - 1, 6, before.vertices.len() as int);
            before.lemma_extend_wf(self.cell_mesh(x, z - 1, before.vertices.len() as int));
        } else if x > 0 && self.rows() >= 0 {
            self.lemma_mesh_before_wf(x - 1, self.rows());
        }
    }

    /// The mesh of a grid is consistent: it has one colour and one terrain
    /// triple to each vertex, its triangles are whole, and every triangle
    /// corner names a vertex.
    pub proof fn lemma_mesh_is_consistent(&self)
        ensures
            self.gathered().wf(),
            self.mesh().wf(),
    {
        self.lemma_mesh_before_wf(self.columns(), 0);
        let made = self.gathered();
        let turned = self.mesh();
        assert forall|i: int| 0 <= i < turned.triangles.len() implies 0
            <= #[trigger] turned.triangles[i] < turned.vertices.len() by {
            assert(turned.triangles[i] == made.triangles[made.triangles.len() - 1 - i]);
        }
    }

    /// Triangulating is repeatable: two meshes made from the same grid hold
    /// the same vertices, colours, terrain triples and indices, value for
    /// value.
    pub proof fn lemma_triangulation_is_repeatable(&self, first: MeshBuffers, second: MeshBuffers)
        requires
            first@ == self.mesh(),
            second@ == self.mesh(),
        ensures
            first.positions@ == second.positions@,
            first.colors@ == second.colors@,
            first.terrain_ids@ == second.terrain_ids@,
            first.indices@ == second.indices@,
    {
        assert(first.positions@.len() == first@.vertices.len());
        assert(second.positions@.len() == second@.vertices.len());
        assert forall|i: int| 0 <= i < first.positions@.len() implies first.positions@[i]
            == second.positions@[i] by {
            assert(first@.vertices[i] == first.positions@[i]@);
            assert(second@.vertices[i] == second.positions@[i]@);
        }
        assert(first.positions@ =~= second.positions@);
        assert(first.indices@.len() == first@.triangles.len());
        assert(second.indices@.len() == second@.triangles.len());
        assert forall|i: int| 0 <= i < first.indices@.len() implies first.indices@[i]
            == second.indices@[i] by {
            assert(first@.triangles[i] == first.indices@[i] as int);
            assert(second@.triangles[i] == second.indices@[i] as int);
        }
        assert(first.indices@ =~= second.indices@);
    }

    /// Each colour picks, from the terrain triple of its vertex, the terrain
    /// of the cell that gave the vertex its height: in a fan the cell's
    /// own, in a strip and in a triangle between three cells that of the
    /// cell on whose solid hexagon the vertex lies.
    pub proof fn lemma_color_picks_owner(&self, a: int, b: int, d: int, base: int, k: int)
        requires
            0 <= d < 6,
        ensures
            0 <= k < 10 ==> self.fan_mesh(a, b, d, base).colors[k].pick(
                self.fan_mesh(a, b, d, base).terrain[k],
            ) == self.cells[a][b].terrain,
            0 <= k < 12 ==> self.strip_mesh(a, b, d, base).colors[k].pick(
                self.strip_mesh(a, b, d, base).terrain[k],
            ) == self.cell_at(bridge_owner(a, b, d, k)).terrain,
            0 <= k < 3 ==> self.corner_mesh(a, b, d, base).colors[k].pick(
                self.corner_mesh(a, b, d, base).terrain[k],
            ) == self.cell_at(corner_owner(a, b, d, k)).terrain,
    {
    }
}

/// The far edge of a strip is an edge of the neighbour's solid hexagon,
/// walked the other way: point `j` of the edge of the cell in column `a` and
/// row `b` in direction `d`, moved across the blend ring, is point `3 - j`
/// of the neighbour's edge in the opposite direction.  The strip's vertices
/// there and those of the neighbour's fan have the same places and, from
/// the same cell, the same heights.
pub proof fn lemma_strip_meets_neighbor(a: int, b: int, d: int, j: int)
    requires
        0 <= d < 6,
        0 <= j <= 3,
    ensures
        trisect(
            ring_corner(a, b, d).plus(bridge(d)),
            ring_corner(a, b, d + 1).plus(bridge(d)),
            j,
        ) == trisect(
            ring_corner(neighbor_place(a, b, d).0, neighbor_place(a, b, d).1, (d + 3) % 6),
            ring_corner(neighbor_place(a, b, d).0, neighbor_place(a, b, d).1, (d + 3) % 6 + 1),
            3 - j,
        ),
{
    lemma_ring_tables();
    lemma_neighbor_center(a, b, d);
    let n = neighbor_place(a, b, d);
    let w1 = ring_corner(a, b, d).plus(bridge(d));
    let w4 = ring_corner(a, b, d + 1).plus(bridge(d));
    let v1 = ring_corner(n.0, n.1, (d + 3) % 6);
    let v4 = ring_corner(n.0, n.1, (d + 3) % 6 + 1);
    if j == 0 {
        assert(trisect(w1, w4, 0) == trisect(v1, v4, 3));
    } else if j == 1 {
        assert(trisect(w1, w4, 1) == trisect(v1, v4, 2));
    } else if j == 2 {
        assert(trisect(w1, w4, 2) == trisect(v1, v4, 1));
    } else {
        assert(trisect(w1, w4, 3) == trisect(v1, v4, 0));
    }
}

/// The point where the cell in column `a` and row `b` meets its neighbours
/// in the directions `d` and `d + 1`: corner `d + 1` of its hexagon.
pub open spec fn meeting_point(a: int, b: int, d: int) -> Point {
    cell_center(a, b).plus(hex_corner(d + 1))
}

/// The cell in column `a` and row `b` of a grid of `cols` columns and `rows`
/// rows makes the triangle where it meets its neighbours in the directions
/// `d` and `d + 1`.
pub open spec fn makes_corner(a: int, b: int, d: int, cols: int, rows: int) -> bool {
    &&& 0 <= a < cols
    &&& 0 <= b < rows
    &&& 0 <= d <= LAST_CORNER_DIRECTION
    &&& neighbor_index(a, b, d, cols, rows) is Some
    &&& neighbor_index(a, b, (d + 1) % 6, cols, rows) is Some
}

/// No point has two triangles: two cells that each make a triangle where
/// they meet two neighbours, at the same point, are the same cell, and the
/// directions are the same.
pub proof fn lemma_corner_made_once(
    a: int,
    b: int,
    d: int,
    a2: int,
    b2: int,
    d2: int,
    cols: int,
    rows: int,
)
    requires
        makes_corner(a, b, d, cols, rows),
        makes_corner(a2, b2, d2, cols, rows),
        meeting_point(a, b, d) == meeting_point(a2, b2, d2),
    ensures
        a == a2,
        b == b2,
        d == d2,
{
}

/// Every point where three cells of the grid meet has a triangle: where the
/// cell in column `a` and row `b` has neighbours in the directions `i - 1`
/// and `i`, the two next to its corner `i`, one of the three cells makes the
/// triangle at that corner.
pub proof fn lemma_corner_made(a: int, b: int, i: int, cols: int, rows: int) -> (maker: (
    int,
    int,
    int,
))
    requires
        0 <= a < cols,
        0 <= b < rows,
        0 <= i < 6,
        neighbor_index(a, b, (i + 5) % 6, cols, rows) is Some,
        neighbor_index(a, b, i, cols, rows) is Some,
    ensures
        makes_corner(maker.0, maker.1, maker.2, cols, rows),
        meeting_point(maker.0, maker.1, maker.2) == cell_center(a, b).plus(hex_corner(i)),
        (maker.0, maker.1) == (a, b) || (maker.0, maker.1) == neighbor_place(a, b, (i + 5) % 6) || (
        maker.0, maker.1) == neighbor_place(a, b, i),
{
    if i == 1 || i == 2 {
        (a, b, i - 1)
    } else if i == 3 {
        let n = neighbor_place(a, b, 3);
        (n.0, n.1, 0)
    } else if i == 5 {
        let n = neighbor_place(a, b, 4);
        (n.0, n.1, 0)
    } else if i == 0 {
        let n = neighbor_place(a, b, 5);
        (n.0, n.1, 1)
    } else {
        let n = neighbor_place(a, b, 4);
        (n.0, n.1, 1)
    }
}

} // verus!
