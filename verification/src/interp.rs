//! Blending the six corner heights of a cell into the elevation of a point
//! inside it.
//!
//! The weight of corner `i` at point `p` is inversely proportional to the
//! product of the distances from `p` to the two edges that meet in that
//! corner.  Here every weight is multiplied by the product of all six
//! distances, which leaves their ratios as they are and removes the
//! division: the weight of corner `i` is the product of the distances to the
//! four other edges.  On an edge or in a corner, where the quotient form
//! has no value, this form has the value the quotient tends to.

use vstd::prelude::*;
use crate::geometry::{corner, hex_corner, hex_normal, normal, PlanarPoint, Point};

verus! {

/// Numerator of the height of one elevation step, in vertical lattice steps:
/// a step is a quarter of the outer radius, seven and a half lattice steps.
pub const HEIGHT_UNIT_NUM: i64 = 15;

/// Denominator of the height of one elevation step.
pub const HEIGHT_UNIT_DEN: i64 = 2;

/// Largest value a corner weight takes inside a hexagon.
pub const MAX_WEIGHT: i64 = 12_960_000;

/// A fraction of mathematical integers.
pub struct Ratio {
    pub num: int,
    pub den: int,
}

impl Ratio {
    /// The fraction stands for exactly `steps` elevation steps.
    pub open spec fn is_level(self, steps: int) -> bool {
        self.den > 0 && self.num * 2 == steps * 15 * self.den
    }

    /// The fraction stands for no less than `low` and no more than `high`
    /// elevation steps.
    pub open spec fn is_between(self, low: int, high: int) -> bool {
        self.den > 0 && low * 15 * self.den <= self.num * 2 <= high * 15 * self.den
    }
}

/// A height above the plane in vertical lattice steps, as a fraction with a
/// positive denominator.
#[derive(Clone, Copy, Debug, PartialEq, Eq, Structural)]
pub struct Elevation {
    pub num: i64,
    pub den: i64,
}

impl View for Elevation {
    type V = Ratio;

    open spec fn view(&self) -> Ratio {
        Ratio { num: self.num as int, den: self.den as int }
    }
}

impl Elevation {
    /// The elevation of the plane itself.
    pub fn zero() -> (r: Elevation)
        ensures
            r@ == (Ratio { num: 0, den: 1 }),
    {
        Elevation { num: 0, den: 1 }
    }
}

/// Distance from `p` to the line through edge `j` of the hexagon about the
/// origin, in units of a sixtieth of the hexagon's width; positive on the
/// hexagon's side of the line.
pub open spec fn edge_distance(j: int, p: Point) -> int {
    hex_normal(j).x * (hex_corner(j).x - p.x) + hex_normal(j).z * (hex_corner(j).z - p.z)
}

/// `p` lies in the closed hexagon about the origin.
pub open spec fn in_hexagon(p: Point) -> bool {
    &&& edge_distance(0, p) >= 0
    &&& edge_distance(1, p) >= 0
    &&& edge_distance(2, p) >= 0
    &&& edge_distance(3, p) >= 0
    &&& edge_distance(4, p) >= 0
    &&& edge_distance(5, p) >= 0
}

/// Weight of corner `i` at `p`: the product of the distances from `p` to
/// the four edges that do not meet in corner `i`.
pub open spec fn corner_weight(i: int, p: Point) -> int {
    edge_distance((i + 2) % 6, p) * edge_distance((i + 3) % 6, p) * edge_distance((i + 4) % 6, p)
        * edge_distance((i + 5) % 6, p)
}

/// Sum of the weights of the first `n` corners at `p`.
pub open spec fn weight_sum(p: Point, n: int) -> int
    decreases n,
{
    if n <= 0 {
        0
    } else {
        weight_sum(p, n - 1) + corner_weight(n - 1, p)
    }
}

/// Sum over the first `n` corners of weight times corner height.
pub open spec fn weighted_sum(p: Point, h: Seq<i32>, n: int) -> int
    decreases n,
{
    if n <= 0 {
        0
    } else {
        weighted_sum(p, h, n - 1) + corner_weight(n - 1, p) * h[n - 1]
    }
}

/// Elevation at `p`, a point relative to the centre of a cell whose six
/// corners have the heights `h`: the weighted mean of the corner heights,
/// times the height of one elevation step.
pub open spec fn blended_height(p: Point, h: Seq<i32>) -> Ratio {
    Ratio { num: 15 * weighted_sum(p, h, 6), den: 2 * weight_sum(p, 6) }
}

/// The six distances written out: each is linear in the point, and two
/// opposite ones add up to the hexagon's width of sixty.
pub proof fn lemma_edge_distances(p: Point)
    ensures
        edge_distance(0, p) == 30 - p.x + p.z,
        edge_distance(1, p) == 30 + p.x + p.z,
        edge_distance(2, p) == 30 + 2 * p.x,
        edge_distance(3, p) == 30 + p.x - p.z,
        edge_distance(4, p) == 30 - p.x - p.z,
        edge_distance(5, p) == 30 - 2 * p.x,
{
}

proof fn lemma_product_zero(a: int, b: int, c: int, d: int)
    requires
        a == 0 || b == 0 || c == 0 || d == 0,
    ensures
        a * b * c * d == 0,
{
    assert(a * b * c * d == 0) by (nonlinear_arith)
        requires
            a == 0 || b == 0 || c == 0 || d == 0,
    ;
}

/// Product of four factors that each lie between zero and sixty.
proof fn lemma_product_bounds(a: int, b: int, c: int, d: int)
    requires
        0 <= a <= 60,
        0 <= b <= 60,
        0 <= c <= 60,
        0 <= d <= 60,
    ensures
        0 <= a * b * c * d <= 12_960_000,
        (a >= 1 && b >= 1 && c >= 1 && d >= 1) ==> a * b * c * d >= 1,
{
    assert(0 <= a * b <= 3600) by (nonlinear_arith)
        requires
            0 <= a <= 60,
            0 <= b <= 60,
    ;
    assert(0 <= (a * b) * c <= 216_000) by (nonlinear_arith)
        requires
            0 <= a * b <= 3600,
            0 <= c <= 60,
    ;
    assert(0 <= ((a * b) * c) * d <= 12_960_000) by (nonlinear_arith)
        requires
            0 <= (a * b) * c <= 216_000,
            0 <= d <= 60,
    ;
    if a >= 1 && b >= 1 && c >= 1 && d >= 1 {
        assert(a * b >= 1) by (nonlinear_arith)
            requires
                a >= 1,
                b >= 1,
        ;
        assert((a * b) * c >= 1) by (nonlinear_arith)
            requires
                a * b >= 1,
                c >= 1,
        ;
        assert(((a * b) * c) * d >= 1) by (nonlinear_arith)
            requires
                (a * b) * c >= 1,
                d >= 1,
        ;
    }
}

/// Inside the hexagon every weight lies between zero and `MAX_WEIGHT`.
pub proof fn lemma_weight_bounds(i: int, p: Point)
    requires
        0 <= i < 6,
        in_hexagon(p),
    ensures
        0 <= corner_weight(i, p) <= MAX_WEIGHT,
{
    lemma_edge_distances(p);
    lemma_product_bounds(
        edge_distance((i + 2) % 6, p),
        edge_distance((i + 3) % 6, p),
        edge_distance((i + 4) % 6, p),
        edge_distance((i + 5) % 6, p),
    );
}

/// Inside the hexagon, its border included, the weights do not all vanish:
/// at most two distances are zero there, to two edges that meet, and the
/// corner where they meet keeps a positive weight.
pub proof fn lemma_weights_sum_positive(p: Point)
    requires
        in_hexagon(p),
    ensures
        0 < weight_sum(p, 6) <= 6 * MAX_WEIGHT,
{
    reveal_with_fuel(weight_sum, 7);
    lemma_weight_bounds(0, p);
    lemma_weight_bounds(1, p);
    lemma_weight_bounds(2, p);
    lemma_weight_bounds(3, p);
    lemma_weight_bounds(4, p);
    lemma_weight_bounds(5, p);
    lemma_edge_distances(p);
    let d0 = edge_distance(0, p);
    let d1 = edge_distance(1, p);
    let d2 = edge_distance(2, p);
    let d3 = edge_distance(3, p);
    let d4 = edge_distance(4, p);
    let d5 = edge_distance(5, p);
    if d2 >= 1 && d3 >= 1 && d4 >= 1 && d5 >= 1 {
        lemma_product_bounds(d2, d3, d4, d5);
    } else if d3 >= 1 && d4 >= 1 && d5 >= 1 && d0 >= 1 {
        lemma_product_bounds(d3, d4, d5, d0);
    } else if d4 >= 1 && d5 >= 1 && d0 >= 1 && d1 >= 1 {
        lemma_product_bounds(d4, d5, d0, d1);
    } else if d5 >= 1 && d0 >= 1 && d1 >= 1 && d2 >= 1 {
        lemma_product_bounds(d5, d0, d1, d2);
    } else if d0 >= 1 && d1 >= 1 && d2 >= 1 && d3 >= 1 {
        lemma_product_bounds(d0, d1, d2, d3);
    } else {
        lemma_product_bounds(d1, d2, d3, d4);
    }
}

/// The weights are those of the quotient form, cleared of denominators: the
/// weight of corner `i`, times the distances to the two edges that meet in
/// it, is the same product of all six distances for every corner.
pub proof fn lemma_weight_is_inverse_product(i: int, p: Point)
    requires
        0 <= i < 6,
    ensures
        corner_weight(i, p) * (edge_distance(i, p) * edge_distance((i + 1) % 6, p))
            == edge_distance(0, p) * edge_distance(1, p) * edge_distance(2, p) * edge_distance(3, p)
            * edge_distance(4, p) * edge_distance(5, p),
{
    let d0 = edge_distance(0, p);
    let d1 = edge_distance(1, p);
    let d2 = edge_distance(2, p);
    let d3 = edge_distance(3, p);
    let d4 = edge_distance(4, p);
    let d5 = edge_distance(5, p);
    assert((d2 * d3 * d4 * d5) * (d0 * d1) == d0 * d1 * d2 * d3 * d4 * d5) by (nonlinear_arith);
    assert((d3 * d4 * d5 * d0) * (d1 * d2) == d0 * d1 * d2 * d3 * d4 * d5) by (nonlinear_arith);
    assert((d4 * d5 * d0 * d1) * (d2 * d3) == d0 * d1 * d2 * d3 * d4 * d5) by (nonlinear_arith);
    assert((d5 * d0 * d1 * d2) * (d3 * d4) == d0 * d1 * d2 * d3 * d4 * d5) by (nonlinear_arith);
    assert((d0 * d1 * d2 * d3) * (d4 * d5) == d0 * d1 * d2 * d3 * d4 * d5) by (nonlinear_arith);
    assert((d1 * d2 * d3 * d4) * (d5 * d0) == d0 * d1 * d2 * d3 * d4 * d5) by (nonlinear_arith);
}

/// In corner `i` the distances to the two edges that meet there are zero,
/// so every weight but that of corner `i` vanishes.
proof fn lemma_weights_in_corner(i: int)
    requires
        0 <= i < 6,
    ensures
        in_hexagon(hex_corner(i)),
        corner_weight(i, hex_corner(i)) > 0,
        forall|k: int| 0 <= k < 6 && k != i ==> corner_weight(k, hex_corner(i)) == 0,
{
    let p = hex_corner(i);
    lemma_edge_distances(p);
    let d0 = edge_distance(0, p);
    let d1 = edge_distance(1, p);
    let d2 = edge_distance(2, p);
    let d3 = edge_distance(3, p);
    let d4 = edge_distance(4, p);
    let d5 = edge_distance(5, p);
    assert(edge_distance(i, p) == 0 && edge_distance((i + 1) % 6, p) == 0);
    if i != 0 {
        lemma_product_zero(d2, d3, d4, d5);
    } else {
        lemma_product_bounds(d2, d3, d4, d5);
    }
    if i != 1 {
        lemma_product_zero(d3, d4, d5, d0);
    } else {
        lemma_product_bounds(d3, d4, d5, d0);
    }
    if i != 2 {
        lemma_product_zero(d4, d5, d0, d1);
    } else {
        lemma_product_bounds(d4, d5, d0, d1);
    }
    if i != 3 {
        lemma_product_zero(d5, d0, d1, d2);
    } else {
        lemma_product_bounds(d5, d0, d1, d2);
    }
    if i != 4 {
        lemma_product_zero(d0, d1, d2, d3);
    } else {
        lemma_product_bounds(d0, d1, d2, d3);
    }
    if i != 5 {
        lemma_product_zero(d1, d2, d3, d4);
    } else {
        lemma_product_bounds(d1, d2, d3, d4);
    }
}

/// In a corner of the hexagon the blended elevation is that corner's own
/// height: corner `i` has all the weight there.
pub proof fn lemma_corner_takes_own_height(i: int, h: Seq<i32>)
    requires
        0 <= i < 6,
        h.len() == 6,
    ensures
        in_hexagon(hex_corner(i)),
        blended_height(hex_corner(i), h).is_level(h[i] as int),
{
    reveal_with_fuel(weight_sum, 7);
    reveal_with_fuel(weighted_sum, 7);
    let p = hex_corner(i);
    lemma_weights_in_corner(i);
    let w = corner_weight(i, p);
    let v = h[i] as int;
    assert(weight_sum(p, 6) == w);
    assert(weighted_sum(p, h, 6) == w * v) by {
        assert(forall|k: int| 0 <= k < 6 && k != i ==> corner_weight(k, p) * h[k] == 0) by {
            assert forall|k: int| 0 <= k < 6 && k != i implies corner_weight(k, p) * h[k] == 0 by {
                assert(corner_weight(k, p) == 0);
                assert(0 * h[k] == 0);
            }
        }
    }
    assert((15 * (w * v)) * 2 == v * 15 * (2 * w)) by (nonlinear_arith);
}

/// Where all six corners have the same height, every point of the cell has
/// it too.
pub proof fn lemma_level_cell_is_flat(p: Point, h: Seq<i32>, level: int)
    requires
        in_hexagon(p),
        h.len() == 6,
        forall|k: int| 0 <= k < 6 ==> h[k] == level,
    ensures
        blended_height(p, h).is_level(level),
{
    reveal_with_fuel(weight_sum, 7);
    reveal_with_fuel(weighted_sum, 7);
    lemma_weights_sum_positive(p);
    let w0 = corner_weight(0, p);
    let w1 = corner_weight(1, p);
    let w2 = corner_weight(2, p);
    let w3 = corner_weight(3, p);
    let w4 = corner_weight(4, p);
    let w5 = corner_weight(5, p);
    let total = weight_sum(p, 6);
    assert(total == w0 + w1 + w2 + w3 + w4 + w5);
    assert(weighted_sum(p, h, 6) == w0 * level + w1 * level + w2 * level + w3 * level + w4 * level
        + w5 * level) by {
        assert(h[0] == level && h[1] == level && h[2] == level && h[3] == level && h[4] == level
            && h[5] == level);
    }
    assert(w0 * level + w1 * level + w2 * level + w3 * level + w4 * level + w5 * level == level * (w0
        + w1 + w2 + w3 + w4 + w5)) by (nonlinear_arith);
    assert((15 * (level * total)) * 2 == level * 15 * (2 * total)) by (nonlinear_arith);
}

/// The blended elevation is a mean: it lies between the lowest and the
/// highest of the six corner heights.
pub proof fn lemma_height_between_corners(p: Point, h: Seq<i32>, low: int, high: int)
    requires
        in_hexagon(p),
        h.len() == 6,
        forall|k: int| 0 <= k < 6 ==> low <= #[trigger] h[k] <= high,
    ensures
        blended_height(p, h).is_between(low, high),
{
    reveal_with_fuel(weight_sum, 7);
    reveal_with_fuel(weighted_sum, 7);
    lemma_weights_sum_positive(p);
    lemma_term_between(corner_weight(0, p), h[0] as int, low, high, p, 0);
    lemma_term_between(corner_weight(1, p), h[1] as int, low, high, p, 1);
    lemma_term_between(corner_weight(2, p), h[2] as int, low, high, p, 2);
    lemma_term_between(corner_weight(3, p), h[3] as int, low, high, p, 3);
    lemma_term_between(corner_weight(4, p), h[4] as int, low, high, p, 4);
    lemma_term_between(corner_weight(5, p), h[5] as int, low, high, p, 5);
    let total = weight_sum(p, 6);
    let sum = weighted_sum(p, h, 6);
    assert(total * low <= sum <= total * high) by {
        let w0 = corner_weight(0, p);
        let w1 = corner_weight(1, p);
        let w2 = corner_weight(2, p);
        let w3 = corner_weight(3, p);
        let w4 = corner_weight(4, p);
        let w5 = corner_weight(5, p);
        assert((w0 + w1 + w2 + w3 + w4 + w5) * low == w0 * low + w1 * low + w2 * low + w3 * low
            + w4 * low + w5 * low) by (nonlinear_arith);
        assert((w0 + w1 + w2 + w3 + w4 + w5) * high == w0 * high + w1 * high + w2 * high + w3
            * high + w4 * high + w5 * high) by (nonlinear_arith);
    }
    assert(low * 15 * (2 * total) == 30 * (total * low)) by (nonlinear_arith);
    assert(high * 15 * (2 * total) == 30 * (total * high)) by (nonlinear_arith);
}

/// One term of the weighted sum lies between the weight times the lowest
/// and the weight times the highest height.
proof fn lemma_term_between(w: int, v: int, low: int, high: int, p: Point, i: int)
    requires
        0 <= i < 6,
        in_hexagon(p),
        w == corner_weight(i, p),
        low <= v <= high,
    ensures
        w * low <= w * v <= w * high,
{
    lemma_weight_bounds(i, p);
    assert(w * low <= w * v <= w * high) by (nonlinear_arith)
        requires
            0 <= w,
            low <= v <= high,
    ;
}

/// Distance from `x` to the line through `v` with scaled normal `n`.
pub fn edge_gap(v: PlanarPoint, n: PlanarPoint, x: PlanarPoint) -> (r: i64)
    requires
        -2 <= n.x <= 2,
        -2 <= n.z <= 2,
    ensures
        r == n.x * (v.x - x.x) + n.z * (v.z - x.z),
{
    let dx: i64 = v.x as i64 - x.x as i64;
    let dz: i64 = v.z as i64 - x.z as i64;
    let nx: i64 = n.x as i64;
    let nz: i64 = n.z as i64;
    assert(-0x2_0000_0000 <= nx * dx <= 0x2_0000_0000) by (nonlinear_arith)
        requires
            -2 <= nx <= 2,
            -0x1_0000_0000 <= dx <= 0x1_0000_0000,
    ;
    assert(-0x2_0000_0000 <= nz * dz <= 0x2_0000_0000) by (nonlinear_arith)
        requires
            -2 <= nz <= 2,
            -0x1_0000_0000 <= dz <= 0x1_0000_0000,
    ;
    nx * dx + nz * dz
}

/// Weight of corner `i` at `x`, a point relative to the cell's centre.
#[verifier::rlimit(30)]
pub fn calc_weight(i: usize, x: PlanarPoint) -> (w: i64)
    requires
        i < 6,
        in_hexagon(x@),
    ensures
        w == corner_weight(i as int, x@),
        0 <= w <= MAX_WEIGHT,
{
    let a: usize = (i + 2) % 6;
    let b: usize = (i + 3) % 6;
    let c: usize = (i + 4) % 6;
    let d: usize = (i + 5) % 6;
    let da: i64 = edge_gap(corner(a), normal(a), x);
    let db: i64 = edge_gap(corner(b), normal(b), x);
    let dc: i64 = edge_gap(corner(c), normal(c), x);
    let dd: i64 = edge_gap(corner(d), normal(d), x);
    proof {
        lemma_edge_distances(x@);
        lemma_product_bounds(da as int, db as int, dc as int, dd as int);
        assert(0 <= da * db <= 3600) by (nonlinear_arith)
            requires
                0 <= da <= 60,
                0 <= db <= 60,
        ;
        assert(0 <= (da * db) * dc <= 216_000) by (nonlinear_arith)
            requires
                0 <= da * db <= 3600,
                0 <= dc <= 60,
        ;
    }
    da * db * dc * dd
}

} // verus!
