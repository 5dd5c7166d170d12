//! The buffers a mesh is gathered in, and their mathematical model.

use vstd::prelude::*;
use crate::geometry::{trisect, PlanarPoint, Point};
use crate::interp::{Elevation, Ratio};

verus! {

/// One of the three colours that tell which entry of a vertex's terrain
/// triple belongs to the cell that gave the vertex its height: red the
/// first, green the second, blue the third.
#[derive(Clone, Copy, Debug, PartialEq, Eq, Structural)]
pub enum BlendColor {
    Red,
    Green,
    Blue,
}

impl BlendColor {
    /// Red, green, blue and opacity, each 0 or 255.
    pub fn rgba(self) -> (c: [u8; 4])
        ensures
            c[0] == (if self == BlendColor::Red {
                255u8
            } else {
                0u8
            }),
            c[1] == (if self == BlendColor::Green {
                255u8
            } else {
                0u8
            }),
            c[2] == (if self == BlendColor::Blue {
                255u8
            } else {
                0u8
            }),
            c[3] == 255,
    {
        match self {
            BlendColor::Red => [255, 0, 0, 255],
            BlendColor::Green => [0, 255, 0, 255],
            BlendColor::Blue => [0, 0, 255, 255],
        }
    }

    /// The terrain that this colour picks from a terrain triple.
    pub open spec fn pick(self, t: (u32, u32, u32)) -> u32 {
        match self {
            BlendColor::Red => t.0,
            BlendColor::Green => t.1,
            BlendColor::Blue => t.2,
        }
    }
}

/// A vertex in mathematical coordinates.
pub struct VertexModel {
    pub at: Point,
    pub height: Ratio,
}

/// The vertex at `p` on the plane itself.
pub open spec fn flat(p: Point) -> VertexModel {
    VertexModel { at: p, height: Ratio { num: 0, den: 1 } }
}

/// A vertex of the mesh: a lattice point and its elevation.
#[derive(Clone, Copy, Debug, PartialEq, Eq, Structural)]
pub struct Vertex {
    pub x: i32,
    pub y: Elevation,
    pub z: i32,
}

impl View for Vertex {
    type V = VertexModel;

    open spec fn view(&self) -> VertexModel {
        VertexModel { at: Point { x: self.x as int, z: self.z as int }, height: self.y@ }
    }
}

impl Vertex {
    /// The lattice point below or above the vertex.
    pub fn point(&self) -> (p: PlanarPoint)
        ensures
            p@ == self@.at,
    {
        PlanarPoint { x: self.x, z: self.z }
    }
}

/// The four points that cut an edge into thirds.
#[derive(Clone, Copy, Debug, PartialEq, Eq, Structural)]
pub struct EdgeVertices {
    pub v1: PlanarPoint,
    pub v2: PlanarPoint,
    pub v3: PlanarPoint,
    pub v4: PlanarPoint,
}

impl EdgeVertices {
    /// The second and third point lie at one and two thirds of the way from
    /// the first to the fourth.
    pub open spec fn wf(self) -> bool {
        &&& self.v4@.minus(self.v1@).divisible_by_three()
        &&& self.v2@ == trisect(self.v1@, self.v4@, 1)
        &&& self.v3@ == trisect(self.v1@, self.v4@, 2)
    }

    /// Point `k` of the edge, counted from 0.
    pub open spec fn at(self, k: int) -> Point {
        if k == 0 {
            self.v1@
        } else if k == 1 {
            self.v2@
        } else if k == 2 {
            self.v3@
        } else {
            self.v4@
        }
    }

    /// The edge from `v1` to `v4`, cut into thirds.
    pub fn new(v1: PlanarPoint, v4: PlanarPoint) -> (e: EdgeVertices)
        requires
            v4@.minus(v1@).divisible_by_three(),
        ensures
            e.v1 == v1,
            e.v4 == v4,
            e.wf(),
    {
        let v2 = v1.lerp_thirds(v4, 1);
        let v3 = v1.lerp_thirds(v4, 2);
        EdgeVertices { v1, v2, v3, v4 }
    }
}

/// A mesh in mathematical terms: vertices, one colour and one terrain triple
/// to each vertex, and triangles as triples of vertex numbers.
pub struct MeshModel {
    pub vertices: Seq<VertexModel>,
    pub colors: Seq<BlendColor>,
    pub terrain: Seq<(u32, u32, u32)>,
    pub triangles: Seq<int>,
}

impl MeshModel {
    /// The mesh without vertices.
    pub open spec fn empty() -> MeshModel {
        MeshModel {
            vertices: Seq::empty(),
            colors: Seq::empty(),
            terrain: Seq::empty(),
            triangles: Seq::empty(),
        }
    }

    /// This mesh followed by `more`.
    pub open spec fn extend(self, more: MeshModel) -> MeshModel {
        MeshModel {
            vertices: self.vertices + more.vertices,
            colors: self.colors + more.colors,
            terrain: self.terrain + more.terrain,
            triangles: self.triangles + more.triangles,
        }
    }

    /// The mesh with the order of all its triangle corners reversed, which
    /// turns every triangle to face the other way.
    pub open spec fn rewound(self) -> MeshModel {
        MeshModel {
            vertices: self.vertices,
            colors: self.colors,
            terrain: self.terrain,
            triangles: self.triangles.reverse(),
        }
    }

    /// The mesh can follow one of `base` vertices: it has a colour and a
    /// terrain triple to each vertex, whole triangles, and every triangle
    /// corner names a vertex of the part itself.
    pub open spec fn fits_at(self, base: int) -> bool {
        &&& self.colors.len() == self.vertices.len()
        &&& self.terrain.len() == self.vertices.len()
        &&& self.triangles.len() % 3 == 0
        &&& forall|i: int|
            0 <= i < self.triangles.len() ==> base <= #[trigger] self.triangles[i] < base
                + self.vertices.len()
    }

    /// The mesh has a colour and a terrain triple to each vertex, whole
    /// triangles, and every triangle corner names a vertex.
    pub open spec fn wf(self) -> bool {
        &&& self.colors.len() == self.vertices.len()
        &&& self.terrain.len() == self.vertices.len()
        &&& self.triangles.len() % 3 == 0
        &&& forall|i: int|
            0 <= i < self.triangles.len() ==> 0 <= #[trigger] self.triangles[i]
                < self.vertices.len()
    }

    /// A well-formed mesh followed by a part that fits it is well formed.
    pub proof fn lemma_extend_wf(self, more: MeshModel)
        requires
            self.wf(),
            more.fits_at(self.vertices.len() as int),
        ensures
            self.extend(more).wf(),
    {
        let all = self.extend(more);
        assert forall|i: int| 0 <= i < all.triangles.len() implies 0 <= #[trigger] all.triangles[i]
            < all.vertices.len() by {
            if i >= self.triangles.len() {
                assert(all.triangles[i] == more.triangles[i - self.triangles.len()]);
            }
        }
    }

    /// Following with the empty mesh changes nothing, and following with two
    /// parts in turn is following with the two joined.
    pub proof fn lemma_extend_laws(self, b: MeshModel, c: MeshModel)
        ensures
            self.extend(MeshModel::empty()) == self,
            MeshModel::empty().extend(self) == self,
            self.extend(b).extend(c) == self.extend(b.extend(c)),
    {
        assert(self.extend(MeshModel::empty()).vertices =~= self.vertices);
        assert(self.extend(MeshModel::empty()).colors =~= self.colors);
        assert(self.extend(MeshModel::empty()).terrain =~= self.terrain);
        assert(self.extend(MeshModel::empty()).triangles =~= self.triangles);
        assert(MeshModel::empty().extend(self).vertices =~= self.vertices);
        assert(MeshModel::empty().extend(self).colors =~= self.colors);
        assert(MeshModel::empty().extend(self).terrain =~= self.terrain);
        assert(MeshModel::empty().extend(self).triangles =~= self.triangles);
        assert(self.extend(b).extend(c).vertices =~= self.extend(b.extend(c)).vertices);
        assert(self.extend(b).extend(c).colors =~= self.extend(b.extend(c)).colors);
        assert(self.extend(b).extend(c).terrain =~= self.extend(b.extend(c)).terrain);
        assert(self.extend(b).extend(c).triangles =~= self.extend(b.extend(c)).triangles);
    }
}

/// The buffers a mesh is gathered in while the cells are triangulated.
#[derive(Clone, Debug, PartialEq, Eq)]
pub struct HexMeshData {
    pub vertices: Vec<Vertex>,
    pub colors: Vec<BlendColor>,
    pub vert_terrain: Vec<(u32, u32, u32)>,
    pub triangles: Vec<u32>,
}

impl View for HexMeshData {
    type V = MeshModel;

    open spec fn view(&self) -> MeshModel {
        MeshModel {
            vertices: self.vertices@.map_values(|v: Vertex| v@),
            colors: self.colors@,
            terrain: self.vert_terrain@,
            triangles: self.triangles@.map_values(|i: u32| i as int),
        }
    }
}

impl HexMeshData {
    /// Empty buffers.
    pub fn new() -> (data: HexMeshData)
        ensures
            data@ == MeshModel::empty(),
    {
        let data = HexMeshData {
            vertices: Vec::new(),
            colors: Vec::new(),
            vert_terrain: Vec::new(),
            triangles: Vec::new(),
        };
        assert(data@.vertices =~= Seq::empty());
        assert(data@.triangles =~= Seq::empty());
        data
    }

    /// Number of vertices gathered so far.
    pub fn vertex_count(&self) -> (n: usize)
        ensures
            n == self@.vertices.len(),
    {
        self.vertices.len()
    }

    /// Adds a vertex at `p`, on the plane.
    pub fn push_point(&mut self, p: PlanarPoint)
        ensures
            final(self)@ == (MeshModel {
                vertices: old(self)@.vertices.push(flat(p@)),
                colors: old(self)@.colors,
                terrain: old(self)@.terrain,
                triangles: old(self)@.triangles,
            }),
    {
        let v = Vertex { x: p.x, y: Elevation::zero(), z: p.z };
        self.vertices.push(v);
        assert(self@.vertices =~= old(self)@.vertices.push(flat(p@)));
    }

    /// Gives vertex `i` the elevation `y`.
    pub fn raise(&mut self, i: usize, y: Elevation)
        requires
            i < old(self)@.vertices.len(),
        ensures
            final(self)@ == (MeshModel {
                vertices: old(self)@.vertices.update(
                    i as int,
                    VertexModel { at: old(self)@.vertices[i as int].at, height: y@ },
                ),
                colors: old(self)@.colors,
                terrain: old(self)@.terrain,
                triangles: old(self)@.triangles,
            }),
    {
        let v = self.vertices[i];
        self.vertices[i] = Vertex { x: v.x, y, z: v.z };
        assert(self@.vertices =~= old(self)@.vertices.update(
            i as int,
            VertexModel { at: old(self)@.vertices[i as int].at, height: y@ },
        ));
    }

    /// Adds the colour `c`.
    pub fn push_color(&mut self, c: BlendColor)
        ensures
            final(self)@ == (MeshModel {
                vertices: old(self)@.vertices,
                colors: old(self)@.colors.push(c),
                terrain: old(self)@.terrain,
                triangles: old(self)@.triangles,
            }),
    {
        self.colors.push(c);
    }

    /// Adds the terrain triple `t`.
    pub fn push_terrain(&mut self, t: (u32, u32, u32))
        ensures
            final(self)@ == (MeshModel {
                vertices: old(self)@.vertices,
                colors: old(self)@.colors,
                terrain: old(self)@.terrain.push(t),
                triangles: old(self)@.triangles,
            }),
    {
        self.vert_terrain.push(t);
    }

    /// Adds the colour `c` `n` times.
    pub fn push_colors(&mut self, c: BlendColor, n: usize)
        ensures
            final(self)@ == (MeshModel {
                vertices: old(self)@.vertices,
                colors: old(self)@.colors + Seq::new(n as nat, |k: int| c),
                terrain: old(self)@.terrain,
                triangles: old(self)@.triangles,
            }),
    {
        for i in 0..n
            invariant
                self@ == (MeshModel {
                    vertices: old(self)@.vertices,
                    colors: old(self)@.colors + Seq::new(i as nat, |k: int| c),
                    terrain: old(self)@.terrain,
                    triangles: old(self)@.triangles,
                }),
        {
            self.push_color(c);
            assert(self@.colors =~= old(self)@.colors + Seq::new((i + 1) as nat, |k: int| c));
        }
    }

    /// Adds the terrain triple `t` `n` times.
    pub fn push_terrains(&mut self, t: (u32, u32, u32), n: usize)
        ensures
            final(self)@ == (MeshModel {
                vertices: old(self)@.vertices,
                colors: old(self)@.colors,
                terrain: old(self)@.terrain + Seq::new(n as nat, |k: int| t),
                triangles: old(self)@.triangles,
            }),
    {
        for i in 0..n
            invariant
                self@ == (MeshModel {
                    vertices: old(self)@.vertices,
                    colors: old(self)@.colors,
                    terrain: old(self)@.terrain + Seq::new(i as nat, |k: int| t),
                    triangles: old(self)@.triangles,
                }),
        {
            self.push_terrain(t);
            assert(self@.terrain =~= old(self)@.terrain + Seq::new((i + 1) as nat, |k: int| t));
        }
    }

    /// Adds the triangle with the corners `a`, `b` and `c`.
    pub fn push_triangle(&mut self, a: u32, b: u32, c: u32)
        ensures
            final(self)@ == (MeshModel {
                vertices: old(self)@.vertices,
                colors: old(self)@.colors,
                terrain: old(self)@.terrain,
                triangles: old(self)@.triangles.push(a as int).push(b as int).push(c as int),
            }),
    {
        self.triangles.push(a);
        self.triangles.push(b);
        self.triangles.push(c);
        assert(self@.triangles =~= old(self)@.triangles.push(a as int).push(b as int).push(
            c as int,
        ));
    }
}

/// The finished mesh: a position, a colour and a terrain triple to each
/// vertex, and the triangles as triples of vertex numbers.
#[derive(Clone, Debug, PartialEq, Eq)]
pub struct MeshBuffers {
    pub positions: Vec<Vertex>,
    pub colors: Vec<BlendColor>,
    pub terrain_ids: Vec<(u32, u32, u32)>,
    pub indices: Vec<u32>,
}

impl View for MeshBuffers {
    type V = MeshModel;

    open spec fn view(&self) -> MeshModel {
        MeshModel {
            vertices: self.positions@.map_values(|v: Vertex| v@),
            colors: self.colors@,
            terrain: self.terrain_ids@,
            triangles: self.indices@.map_values(|i: u32| i as int),
        }
    }
}

} // verus!
