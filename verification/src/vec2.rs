//! Points and vectors in the plane.

use vstd::prelude::*;
use crate::fixed::{
    checked, floor_sqrt, isqrt, lemma_floor_sqrt, lemma_floor_sqrt_below, lemma_square_le, magnitude,
    quot, wide_quot, SCALE,
};

verus! {

/// A point or a vector; both coordinates are fixed-point scalars.
#[derive(Clone, Copy, Debug, PartialEq, Eq, Structural)]
pub struct Vec2 {
    pub x: i64,
    pub y: i64,
}

/// Squared distance between two points, in squared raw units.
pub open spec fn dist_sq(a: Vec2, b: Vec2) -> int {
    (b.x - a.x) * (b.x - a.x) + (b.y - a.y) * (b.y - a.y)
}

/// Distance between two points, rounded down; `None` when it is not finite.
pub open spec fn distance_spec(a: Vec2, b: Vec2) -> Option<i64> {
    checked(floor_sqrt(dist_sq(a, b)))
}

/// The distance is finite and below `bound`.
pub open spec fn closer_than(a: Vec2, b: Vec2, bound: int) -> bool {
    match distance_spec(a, b) {
        Some(d) => d < bound,
        None => false,
    }
}

pub proof fn lemma_square_nonneg(a: int)
    by (nonlinear_arith)
    ensures
        0 <= a * a,
{
}

/// Two points are closer than a positive bound exactly when the squared
/// distance is below the squared bound.
pub proof fn lemma_closer_than(a: Vec2, b: Vec2, bound: int)
    requires
        0 < bound <= i64::MAX,
    ensures
        closer_than(a, b, bound) <==> dist_sq(a, b) < bound * bound,
{
    lemma_square_nonneg(b.x - a.x);
    lemma_square_nonneg(b.y - a.y);
    lemma_floor_sqrt(dist_sq(a, b));
    lemma_floor_sqrt_below(dist_sq(a, b), bound);
}

/// A distance is symmetric in its end points.
pub proof fn lemma_distance_symmetric(a: Vec2, b: Vec2)
    ensures
        distance_spec(a, b) == distance_spec(b, a),
{
    assert(dist_sq(a, b) == dist_sq(b, a)) by (nonlinear_arith);
}

/// A finite distance is at least the offset along either axis.
pub proof fn lemma_distance_dominates(a: Vec2, b: Vec2)
    ensures
        0 <= floor_sqrt(dist_sq(a, b)),
        magnitude(b.x - a.x) <= floor_sqrt(dist_sq(a, b)),
        magnitude(b.y - a.y) <= floor_sqrt(dist_sq(a, b)),
{
    let dx = magnitude(b.x - a.x);
    let dy = magnitude(b.y - a.y);
    let d = floor_sqrt(dist_sq(a, b));
    lemma_square_nonneg(b.x - a.x);
    lemma_square_nonneg(b.y - a.y);
    lemma_floor_sqrt(dist_sq(a, b));
    assert(dx * dx == (b.x - a.x) * (b.x - a.x)) by (nonlinear_arith)
        requires
            dx == magnitude(b.x - a.x),
    ;
    assert(dy * dy == (b.y - a.y) * (b.y - a.y)) by (nonlinear_arith)
        requires
            dy == magnitude(b.y - a.y),
    ;
    if d < dx {
        lemma_square_le(d + 1, dx);
    }
    if d < dy {
        lemma_square_le(d + 1, dy);
    }
}

/// One coordinate of the unit vector along an offset of length `length`.
pub open spec fn unit_component(offset: int, length: int) -> int {
    quot(offset * SCALE, length)
}

/// The coordinates of the unit vector along an offset have magnitude at most one.
pub proof fn lemma_unit_component_bound(offset: int, length: int)
    requires
        0 < length,
        magnitude(offset) <= length,
    ensures
        -SCALE <= unit_component(offset, length) <= SCALE,
{
    let m = magnitude(offset * SCALE);
    assert(m == magnitude(offset) * SCALE) by (nonlinear_arith)
        requires
            m == magnitude(offset * SCALE),
            SCALE == 1_000_000,
    ;
    assert(0 <= m / length <= SCALE) by (nonlinear_arith)
        requires
            0 < length,
            0 <= m <= length * SCALE,
            SCALE == 1_000_000,
    ;
}

impl Vec2 {
    /// The vector with the given coordinates.
    pub fn new(x: i64, y: i64) -> (v: Vec2)
        ensures
            v == (Vec2 { x, y }),
    {
        Vec2 { x, y }
    }

    /// The null vector.
    pub fn zero() -> (v: Vec2)
        ensures
            v == (Vec2 { x: 0, y: 0 }),
    {
        Vec2 { x: 0, y: 0 }
    }
}

/// Magnitude of the difference of two scalars.
pub fn abs_diff(a: i64, b: i64) -> (r: u128)
    ensures
        r == magnitude(b - a),
{
    let d: i128 = b as i128 - a as i128;
    if d < 0 { (-d) as u128 } else { d as u128 }
}

/// Distance between two points, rounded down; `None` when it is not finite.
pub fn distance(a: Vec2, b: Vec2) -> (r: Option<i64>)
    ensures
        r == distance_spec(a, b),
        r == distance_spec(b, a),
        match r {
            Some(d) => d >= 0,
            None => true,
        },
{
    proof {
        lemma_distance_symmetric(a, b);
    }
    let mx = abs_diff(a.x, b.x);
    let my = abs_diff(a.y, b.y);
    proof {
        lemma_square_le(mx as int, 0xFFFF_FFFF_FFFF_FFFF);
        lemma_square_le(my as int, 0xFFFF_FFFF_FFFF_FFFF);
        assert(mx * mx == (b.x - a.x) * (b.x - a.x)) by (nonlinear_arith)
            requires
                mx == magnitude(b.x - a.x),
        ;
        assert(my * my == (b.y - a.y) * (b.y - a.y)) by (nonlinear_arith)
            requires
                my == magnitude(b.y - a.y),
        ;
        lemma_floor_sqrt(dist_sq(a, b));
    }
    let sx: u128 = mx * mx;
    let sy: u128 = my * my;
    match sx.checked_add(sy) {
        Some(s) => {
            let root = isqrt(s);
            if root > 0x7FFF_FFFF_FFFF_FFFF {
                None
            } else {
                Some(root as i64)
            }
        },
        None => {
            proof {
                let d = floor_sqrt(dist_sq(a, b));
                if d <= i64::MAX {
                    lemma_square_le(d + 1, 0x8000_0000_0000_0000);
                }
            }
            None
        },
    }
}

/// The unit vector from one point to another at the given distance.
pub fn unit_vector(from: Vec2, to: Vec2, length: i64) -> (n: Vec2)
    requires
        0 < length,
        distance_spec(from, to) == Some(length),
    ensures
        n.x == unit_component(to.x - from.x, length as int),
        n.y == unit_component(to.y - from.y, length as int),
        -SCALE <= n.x <= SCALE,
        -SCALE <= n.y <= SCALE,
{
    let dx: i128 = to.x as i128 - from.x as i128;
    let dy: i128 = to.y as i128 - from.y as i128;
    proof {
        lemma_distance_dominates(from, to);
        lemma_unit_component_bound(dx as int, length as int);
        lemma_unit_component_bound(dy as int, length as int);
    }
    let nx: i128 = wide_quot(dx * 1_000_000, length as i128);
    let ny: i128 = wide_quot(dy * 1_000_000, length as i128);
    Vec2 { x: nx as i64, y: ny as i64 }
}

} // verus!
