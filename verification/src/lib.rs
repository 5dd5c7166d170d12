//! Height-blended triangle meshes for a hexagonal tile grid.
//!
//! A grid of hexagonal cells lies over a lattice of corner heights that the
//! cells share.  From the grid a mesh is made: inside each cell a fan of
//! fine triangles, between neighbours a strip, and where three cells meet a
//! triangle, every vertex with a height blended from the six corners of the
//! cell it belongs to.  A point of the plane is mapped back to the cell that
//! holds it.
//!
//! All geometry lives on an integer lattice: one step along `x` is a
//! fifteenth of the inner radius of a hexagon, one step along `z`, and one
//! vertical step, is a thirtieth of its outer radius.  Every point the
//! triangulator makes is a lattice point and every height a fraction of
//! integers, so that places, seams and heights are exact.
//!
//! - [`geometry`]: the lattice, the tables of the hexagon, the directions
//! - [`coords`]: cube and offset coordinates, and picking
//! - [`interp`]: blending six corner heights into the height of a point
//! - [`topology`]: where the corners and the neighbours of a cell are
//! - [`grid`]: cells, grid and lattice, and what makes them well formed
//! - [`construction`]: making a grid and linking its cells
//! - [`edits`]: reading and editing heights
//! - [`mesh`]: the buffers of a mesh and their model
//! - [`triangulate`]: triangulating cells and grid
//! - [`seams`]: what holds of the mesh of every grid

pub mod geometry;
pub mod coords;
pub mod interp;
pub mod topology;
pub mod grid;
pub mod construction;
pub mod edits;
pub mod mesh;
pub mod triangulate;
pub mod seams;

pub use coords::{HexCoordinate, OffsetCoordinate};
pub use geometry::PlanarPoint;
pub use grid::{HexCell, HexGrid};
pub use interp::Elevation;
pub use mesh::{BlendColor, EdgeVertices, HexMeshData, MeshBuffers, Vertex};
