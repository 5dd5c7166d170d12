//! Cube coordinates, offset coordinates, and the way from a lattice point to
//! the cell that holds it.

use vstd::prelude::*;
use crate::geometry::{cell_center, PlanarPoint, Point};
use crate::interp::{in_hexagon, lemma_edge_distances};

verus! {

/// Denominator under which the fractional cube coordinates of a lattice
/// point are whole numbers.
pub const CUBE_DEN: i64 = 90;

/// A cube coordinate in mathematical integers.
pub struct Cube {
    pub x: int,
    pub y: int,
    pub z: int,
}

/// `n / d` rounded to the nearest integer, halves away from zero.
pub open spec fn round_half_away(n: int, d: int) -> int {
    if n >= 0 {
        (2 * n + d) / (2 * d)
    } else {
        -((d - 2 * n) / (2 * d))
    }
}

/// Distance between two integers.
pub open spec fn gap(a: int, b: int) -> int {
    if a >= b {
        a - b
    } else {
        b - a
    }
}

/// `z / 2` rounded towards zero.
pub open spec fn half_toward_zero(z: int) -> int {
    if z >= 0 {
        z / 2
    } else {
        -((-z) / 2)
    }
}

/// The cube coordinate nearest to lattice point `p`.
///
/// The fractional coordinates of `p` are `(3x + z) / 90`, `(z - 3x) / 90`
/// and `-2z / 90`.  Each is rounded on its own.  Where the rounded three do
/// not sum to zero, the one that moved furthest is recomputed from the other
/// two: `x` where it moved strictly further than both others, else `z` where
/// it moved strictly further than `y`, else `y`.
pub open spec fn cube_round(p: Point) -> Cube {
    let nx = 3 * p.x + p.z;
    let ny = p.z - 3 * p.x;
    let nz = -2 * p.z;
    let ix = round_half_away(nx, 90);
    let iy = round_half_away(ny, 90);
    let iz = round_half_away(nz, 90);
    let dx = gap(nx, 90 * ix);
    let dy = gap(ny, 90 * iy);
    let dz = gap(nz, 90 * iz);
    if ix + iy + iz == 0 {
        Cube { x: ix, y: iy, z: iz }
    } else if dx > dy && dx > dz {
        Cube { x: -iy - iz, y: iy, z: iz }
    } else if dz > dy {
        Cube { x: ix, y: iy, z: -ix - iy }
    } else {
        Cube { x: ix, y: -ix - iz, z: iz }
    }
}

/// Column of the cell at cube coordinate `c`.
pub open spec fn offset_column(c: Cube) -> int {
    c.x + half_toward_zero(c.z)
}

/// What an index holds for the signed value `v`: `v` itself where it is not
/// negative, and else a value beyond the columns and rows of every grid.
pub open spec fn wrap_index(v: int) -> int {
    if v >= 0 {
        v
    } else {
        usize::MAX + 1 + v
    }
}

/// A cell's place in the grid array: column `x`, row `z`.
#[derive(Clone, Copy, Debug, PartialEq, Eq, Structural)]
pub struct OffsetCoordinate {
    pub x: usize,
    pub z: usize,
}

/// A hexagon's place in cube coordinates; the three sum to zero.
#[derive(Clone, Copy, Debug, PartialEq, Eq, Structural)]
pub struct HexCoordinate {
    pub x: i32,
    pub y: i32,
    pub z: i32,
}

impl View for HexCoordinate {
    type V = Cube;

    open spec fn view(&self) -> Cube {
        Cube { x: self.x as int, y: self.y as int, z: self.z as int }
    }
}

/// `n / d` rounded to the nearest integer, halves away from zero.
pub fn round_ratio(n: i64, d: i64) -> (r: i64)
    requires
        0 < d <= 0x1000_0000,
        -0x1_0000_0000_0000 <= n <= 0x1_0000_0000_0000,
    ensures
        r == round_half_away(n as int, d as int),
{
    if n >= 0 {
        (2 * n + d) / (2 * d)
    } else {
        -((d - 2 * n) / (2 * d))
    }
}

fn distance(a: i64, b: i64) -> (r: i64)
    requires
        -0x1_0000_0000_0000 <= a <= 0x1_0000_0000_0000,
        -0x1_0000_0000_0000 <= b <= 0x1_0000_0000_0000,
    ensures
        r == gap(a as int, b as int),
{
    if a >= b {
        a - b
    } else {
        b - a
    }
}

fn index_of(v: i64) -> (r: usize)
    requires
        -0x1_0000_0000 <= v <= 0xffff_ffff,
    ensures
        r == wrap_index(v as int),
{
    if v >= 0 {
        v as usize
    } else {
        usize::MAX - ((-(v + 1)) as usize)
    }
}

impl HexCoordinate {
    /// The three coordinates sum to zero.
    pub open spec fn wf(self) -> bool {
        self.x + self.y + self.z == 0
    }

    /// The cube coordinate with the given `x` and `z`.
    pub fn new(x: i32, z: i32) -> (r: HexCoordinate)
        requires
            i32::MIN <= -x - z <= i32::MAX,
        ensures
            r@ == (Cube { x: x as int, y: -x - z, z: z as int }),
            r.wf(),
    {
        let y: i64 = -(x as i64) - (z as i64);
        HexCoordinate { x, y: y as i32, z }
    }

    /// The hexagon nearest to a lattice point.
    #[verifier::rlimit(30)]
    pub fn from_position(position: PlanarPoint) -> (r: HexCoordinate)
        ensures
            r@ == cube_round(position@),
            r.wf(),
    {
        let px: i64 = position.x as i64;
        let pz: i64 = position.z as i64;
        let x: i64 = 3 * px + pz;
        let y: i64 = pz - 3 * px;
        let z: i64 = -x - y;
        let mut ix: i64 = round_ratio(x, CUBE_DEN);
        let iy: i64 = round_ratio(y, CUBE_DEN);
        let mut iz: i64 = round_ratio(z, CUBE_DEN);
        if ix + iy + iz != 0 {
            let dx: i64 = distance(x, CUBE_DEN * ix);
            let dy: i64 = distance(y, CUBE_DEN * iy);
            let dz: i64 = distance(z, CUBE_DEN * iz);
            if dx > dy && dx > dz {
                ix = -iy - iz;
            } else if dz > dy {
                iz = -ix - iy;
            }
        }
        HexCoordinate::new(ix as i32, iz as i32)
    }
}

impl OffsetCoordinate {
    /// Column and row of the cell at cube coordinate `hex`.
    ///
    /// A negative column or row, which no cell of a grid has, comes out as
    /// an index beyond every grid.
    pub fn from_hex(hex: HexCoordinate) -> (r: OffsetCoordinate)
        ensures
            r.x == wrap_index(offset_column(hex@)),
            r.z == wrap_index(hex.z as int),
    {
        let hx: i64 = hex.x as i64;
        let hz: i64 = hex.z as i64;
        let x: i64 = hx + (hz - (hz % 2)) / 2;
        OffsetCoordinate { x: index_of(x), z: index_of(hz) }
    }

    /// Column and row of the cell nearest to a lattice point.
    pub fn from_position(position: PlanarPoint) -> (r: OffsetCoordinate)
        ensures
            r.x == wrap_index(offset_column(cube_round(position@))),
            r.z == wrap_index(cube_round(position@).z),
    {
        Self::from_hex(HexCoordinate::from_position(position))
    }
}

/// Centre of the hexagon at cube coordinate `c`.
pub open spec fn cube_center(c: Cube) -> Point {
    Point { x: (2 * c.x + c.z) * 15, z: -(c.z * 45) }
}

/// Rounding moves a fraction by half a unit at most.
proof fn lemma_round_is_near(n: int)
    ensures
        -45 <= n - 90 * round_half_away(n, 90) <= 45,
{
    if n >= 0 {
        let q = (2 * n + 90) / 180;
        assert(2 * n + 90 == 180 * q + (2 * n + 90) % 180);
        assert(round_half_away(n, 90) == q);
    } else {
        let q = (90 - 2 * n) / 180;
        assert(90 - 2 * n == 180 * q + (90 - 2 * n) % 180);
        assert(round_half_away(n, 90) == -q);
    }
}

/// The hexagon that a lattice point is rounded to holds the point, its
/// border included.
pub proof fn lemma_rounded_hexagon_holds_point(p: Point)
    ensures
        cube_round(p).x + cube_round(p).y + cube_round(p).z == 0,
        in_hexagon(p.minus(cube_center(cube_round(p)))),
{
    lemma_round_is_near(3 * p.x + p.z);
    lemma_round_is_near(p.z - 3 * p.x);
    lemma_round_is_near(-2 * p.z);
    lemma_edge_distances(p.minus(cube_center(cube_round(p))));
}

/// In the rows of a grid the centre of a hexagon is the centre of the cell
/// in its column and row.
pub proof fn lemma_cube_center_is_cell_center(c: Cube)
    requires
        c.z >= 0,
    ensures
        cube_center(c) == cell_center(offset_column(c), c.z),
{
}

proof fn lemma_round_whole(m: int)
    ensures
        round_half_away(90 * m, 90) == m,
{
    if m >= 0 {
        assert((2 * (90 * m) + 90) / 180 == m);
    } else {
        assert((90 - 2 * (90 * m)) / 180 == -m);
    }
}

/// Picking the centre of a cell gives that cell: the cube coordinate nearest
/// to the centre of the cell in column `col` and row `row` lies in that
/// column and row.
pub proof fn lemma_center_round_trip(col: int, row: int)
    requires
        0 <= col,
        0 <= row,
    ensures
        offset_column(cube_round(cell_center(col, row))) == col,
        cube_round(cell_center(col, row)).z == row,
        wrap_index(offset_column(cube_round(cell_center(col, row)))) == col,
        wrap_index(cube_round(cell_center(col, row)).z) == row,
{
    let p = cell_center(col, row);
    let k = row / 2;
    let nx = 3 * p.x + p.z;
    let ny = p.z - 3 * p.x;
    let nz = -2 * p.z;
    assert(nx == 90 * (col - k));
    assert(ny == 90 * (-(col + row % 2 + k)));
    assert(nz == 90 * row);
    lemma_round_whole(col - k);
    lemma_round_whole(-(col + row % 2 + k));
    lemma_round_whole(row);
}

} // verus!
