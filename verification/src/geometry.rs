//! The lattice, the hexagon's corner and normal tables, and the six
//! directions.

use vstd::prelude::*;

verus! {

/// Direction towards the neighbour across the edge between corners 0 and 1.
pub const NE: usize = 0;

/// Direction towards the neighbour across the edge between corners 1 and 2.
pub const W: usize = 1;

/// Direction towards the neighbour across the edge between corners 2 and 3.
pub const SE: usize = 2;

/// Direction towards the neighbour across the edge between corners 3 and 4.
pub const SW: usize = 3;

/// Direction towards the neighbour across the edge between corners 4 and 5.
pub const E: usize = 4;

/// Direction towards the neighbour across the edge between corners 5 and 0.
pub const NW: usize = 5;

/// Lattice steps along `x` that make up the inner radius.
pub const INNER_RADIUS: i32 = 15;

/// Lattice steps along `z` that make up the outer radius.
pub const OUTER_RADIUS: i32 = 30;

/// Numerator of the solid factor: the share of a hexagon's radius that the
/// cell's own fan covers before the blend ring begins.
pub const SOLID_NUM: i32 = 4;

/// Denominator of the solid factor and of the blend factor.
pub const FACTOR_DEN: i32 = 5;

/// Numerator of the blend factor, one minus the solid factor.
pub const BLEND_NUM: i32 = 1;

/// A point of the plane in mathematical lattice coordinates.
pub struct Point {
    pub x: int,
    pub z: int,
}

impl Point {
    /// The point moved by `o`.
    pub open spec fn plus(self, o: Point) -> Point {
        Point { x: self.x + o.x, z: self.z + o.z }
    }

    /// The way from `o` to this point.
    pub open spec fn minus(self, o: Point) -> Point {
        Point { x: self.x - o.x, z: self.z - o.z }
    }

    /// Both coordinates are multiples of three, so that the segment from the
    /// origin to this point can be cut into thirds on the lattice.
    pub open spec fn divisible_by_three(self) -> bool {
        self.x % 3 == 0 && self.z % 3 == 0
    }

    /// Both coordinates fit a lattice point.
    pub open spec fn fits(self) -> bool {
        i32::MIN <= self.x <= i32::MAX && i32::MIN <= self.z <= i32::MAX
    }
}

/// A point of the plane on the integer lattice.
#[derive(Clone, Copy, Debug, PartialEq, Eq, Structural)]
pub struct PlanarPoint {
    pub x: i32,
    pub z: i32,
}

impl View for PlanarPoint {
    type V = Point;

    open spec fn view(&self) -> Point {
        Point { x: self.x as int, z: self.z as int }
    }
}

impl PlanarPoint {
    /// The point moved by `o`.
    pub fn translate(self, o: PlanarPoint) -> (r: PlanarPoint)
        requires
            self@.plus(o@).fits(),
        ensures
            r@ == self@.plus(o@),
    {
        PlanarPoint { x: self.x + o.x, z: self.z + o.z }
    }

    /// The point at `k` thirds of the way from `self` to `to`.
    pub fn lerp_thirds(self, to: PlanarPoint, k: i32) -> (r: PlanarPoint)
        requires
            0 <= k <= 3,
            to@.minus(self@).divisible_by_three(),
        ensures
            r@ == trisect(self@, to@, k as int),
    {
        let dx: i64 = (to.x as i64 - self.x as i64) / 3;
        let dz: i64 = (to.z as i64 - self.z as i64) / 3;
        let steps: i64 = k as i64;
        assert(steps * dx == (if k == 0 {
            0
        } else if k == 1 {
            dx as int
        } else if k == 2 {
            2 * dx
        } else {
            3 * dx
        })) by (nonlinear_arith)
            requires
                steps == k,
                0 <= k <= 3,
        ;
        assert(steps * dz == (if k == 0 {
            0
        } else if k == 1 {
            dz as int
        } else if k == 2 {
            2 * dz
        } else {
            3 * dz
        })) by (nonlinear_arith)
            requires
                steps == k,
                0 <= k <= 3,
        ;
        let x: i64 = self.x as i64 + steps * dx;
        let z: i64 = self.z as i64 + steps * dz;
        PlanarPoint { x: x as i32, z: z as i32 }
    }

    /// The centroid of the triangle with the corners `self`, `b` and `c`.
    pub fn centroid_with(self, b: PlanarPoint, c: PlanarPoint) -> (r: PlanarPoint)
        requires
            b@.minus(self@).divisible_by_three(),
            c@.minus(b@).divisible_by_three(),
        ensures
            r@ == centroid(self@, b@, c@),
    {
        let x: i64 = (self.x as i64 + b.x as i64 + c.x as i64) / 3;
        let z: i64 = (self.z as i64 + b.z as i64 + c.z as i64) / 3;
        PlanarPoint { x: x as i32, z: z as i32 }
    }
}

/// The centroid of the triangle `a`, `b`, `c`.
pub open spec fn centroid(a: Point, b: Point, c: Point) -> Point {
    Point { x: (a.x + b.x + c.x) / 3, z: (a.z + b.z + c.z) / 3 }
}

/// The point at `k` thirds of the way from `a` to `b`.
pub open spec fn trisect(a: Point, b: Point, k: int) -> Point {
    Point { x: a.x + k * ((b.x - a.x) / 3), z: a.z + k * ((b.z - a.z) / 3) }
}

/// Corner `i` of a hexagon about the origin; corner 6 is corner 0 again.
pub open spec fn hex_corner(i: int) -> Point {
    if i == 0 || i == 6 {
        Point { x: 0, z: -30 }
    } else if i == 1 {
        Point { x: -15, z: -15 }
    } else if i == 2 {
        Point { x: -15, z: 15 }
    } else if i == 3 {
        Point { x: 0, z: 30 }
    } else if i == 4 {
        Point { x: 15, z: 15 }
    } else {
        Point { x: 15, z: -15 }
    }
}

/// Outward normal of the edge that ends in corner `i`, scaled so that its
/// product with a lattice vector is an integer; normal 6 is normal 0 again.
pub open spec fn hex_normal(i: int) -> Point {
    if i == 0 || i == 6 {
        Point { x: 1, z: -1 }
    } else if i == 1 {
        Point { x: -1, z: -1 }
    } else if i == 2 {
        Point { x: -2, z: 0 }
    } else if i == 3 {
        Point { x: -1, z: 1 }
    } else if i == 4 {
        Point { x: 1, z: 1 }
    } else {
        Point { x: 2, z: 0 }
    }
}

/// Corner `i` drawn in by the solid factor: a corner of the cell's own fan.
pub open spec fn solid_corner(i: int) -> Point {
    Point { x: hex_corner(i).x * 4 / 5, z: hex_corner(i).z * 4 / 5 }
}

/// The way across the blend ring in direction `d`: the sum of the two
/// corners of that edge, scaled by the blend factor.
pub open spec fn bridge(d: int) -> Point {
    Point {
        x: (hex_corner(d).x + hex_corner(d + 1).x) / 5,
        z: (hex_corner(d).z + hex_corner(d + 1).z) / 5,
    }
}

/// The way from a cell's centre to the centre of its neighbour in direction
/// `d`.
pub open spec fn neighbor_step(d: int) -> Point {
    Point { x: hex_corner(d).x + hex_corner(d + 1).x, z: hex_corner(d).z + hex_corner(d + 1).z }
}

/// Centre of the cell in the given column and row.
pub open spec fn cell_center(col: int, row: int) -> Point {
    Point { x: (2 * col + row % 2) * 15, z: -(row * 45) }
}

/// Corner `i` of a hexagon about the origin.
pub fn corner(i: usize) -> (r: PlanarPoint)
    requires
        i <= 6,
    ensures
        r@ == hex_corner(i as int),
{
    if i == 0 || i == 6 {
        PlanarPoint { x: 0, z: -OUTER_RADIUS }
    } else if i == 1 {
        PlanarPoint { x: -INNER_RADIUS, z: -(OUTER_RADIUS / 2) }
    } else if i == 2 {
        PlanarPoint { x: -INNER_RADIUS, z: OUTER_RADIUS / 2 }
    } else if i == 3 {
        PlanarPoint { x: 0, z: OUTER_RADIUS }
    } else if i == 4 {
        PlanarPoint { x: INNER_RADIUS, z: OUTER_RADIUS / 2 }
    } else {
        PlanarPoint { x: INNER_RADIUS, z: -(OUTER_RADIUS / 2) }
    }
}

/// Scaled outward normal of the edge that ends in corner `i`.
pub fn normal(i: usize) -> (r: PlanarPoint)
    requires
        i <= 6,
    ensures
        r@ == hex_normal(i as int),
{
    if i == 0 || i == 6 {
        PlanarPoint { x: 1, z: -1 }
    } else if i == 1 {
        PlanarPoint { x: -1, z: -1 }
    } else if i == 2 {
        PlanarPoint { x: -2, z: 0 }
    } else if i == 3 {
        PlanarPoint { x: -1, z: 1 }
    } else if i == 4 {
        PlanarPoint { x: 1, z: 1 }
    } else {
        PlanarPoint { x: 2, z: 0 }
    }
}

/// Corner `i` of the solid inner hexagon about the origin.
pub fn scaled_corner(i: usize) -> (r: PlanarPoint)
    requires
        i <= 6,
    ensures
        r@ == solid_corner(i as int),
{
    let c = corner(i);
    PlanarPoint { x: c.x * SOLID_NUM / FACTOR_DEN, z: c.z * SOLID_NUM / FACTOR_DEN }
}

/// The way across the blend ring in direction `d`.
pub fn blend_bridge(d: usize) -> (r: PlanarPoint)
    requires
        d < 6,
    ensures
        r@ == bridge(d as int),
{
    let a = corner(d);
    let b = corner(d + 1);
    PlanarPoint { x: (a.x + b.x) * BLEND_NUM / FACTOR_DEN, z: (a.z + b.z) * BLEND_NUM / FACTOR_DEN }
}

} // verus!
