//! The smoothing kernels and their radial derivatives.
//!
//! Two shapes are offered; both vanish from the edge of the support disk on,
//! are never negative, never rise with the distance, and integrate to one
//! over the disk of radius `r`.
//!
//! The edge kernel is the squared distance from the edge,
//! `W(r, d) = (r - d)^2 / (pi r^4 / 6)`, with the radial derivative
//! `W'(r, d) = 2 (d - r) / (pi r^4 / 6)`.
//!
//! The sixth-power kernel is `W(r, d) = (r^2 - d^2)^3 / (pi r^8 / 4)`, with the
//! radial derivative `W'(r, d) = -6 d (r^2 - d^2)^2 / (pi r^8 / 4)`.

use vstd::prelude::*;
use crate::fixed::{lemma_square_le, quot, saturate, saturated, wide_mul, wide_quot, SCALE};

verus! {

/// The circle constant, rounded to six places.
pub const PI: i64 = 3_141_593;

/// The shape of the smoothing kernel.
#[derive(Clone, Copy, Debug, PartialEq, Eq, Structural)]
pub enum KernelShape {
    /// The squared distance from the edge of the support.
    Edge,
    /// The cube of the difference of the squares of radius and distance.
    Poly6,
}

/// Fixed-point product clamped into the representable range.
pub open spec fn sat_mul_spec(a: int, b: int) -> i64 {
    saturated(quot(a * b, SCALE as int))
}

/// The normalising volume `pi r^4 / 6`, never below the smallest positive scalar.
pub open spec fn kernel_volume(radius: int) -> int {
    let r2 = sat_mul_spec(radius, radius);
    let r4 = sat_mul_spec(r2 as int, r2 as int);
    let v = quot(PI * r4, 6 * SCALE);
    if v < 1 { 1 } else { v }
}

/// The kernel weight at `distance` from the centre.
pub open spec fn kernel_spec(radius: int, distance: int) -> i64 {
    if distance >= radius {
        0
    } else {
        saturated((radius - distance) * (radius - distance) / kernel_volume(radius))
    }
}

/// The radial derivative of the kernel at `distance` from the centre.
pub open spec fn kernel_slope_spec(radius: int, distance: int) -> i64 {
    if distance >= radius {
        0
    } else {
        saturated(quot(2 * (distance - radius) * SCALE, kernel_volume(radius)))
    }
}

/// The volume is a positive scalar.
pub proof fn lemma_volume_bounds(radius: int)
    ensures
        1 <= kernel_volume(radius) <= i64::MAX,
{
    let r2 = sat_mul_spec(radius, radius);
    let r4 = sat_mul_spec(r2 as int, r2 as int);
    if r4 >= 0 {
        assert(PI * r4 / (6 * SCALE) <= r4) by (nonlinear_arith)
            requires
                r4 >= 0,
                PI == 3_141_593,
                SCALE == 1_000_000,
        ;
    }
}

/// The kernel is never negative.
pub proof fn lemma_kernel_nonneg(radius: int, distance: int)
    ensures
        kernel_spec(radius, distance) >= 0,
{
    lemma_volume_bounds(radius);
    if distance < radius {
        let diff = radius - distance;
        let v = kernel_volume(radius);
        assert(diff * diff / v >= 0) by (nonlinear_arith)
            requires
                v >= 1,
        ;
    }
}

/// The kernel vanishes on and beyond the edge of its support.
pub proof fn lemma_kernel_support(radius: int, distance: int)
    requires
        distance >= radius,
    ensures
        kernel_spec(radius, distance) == 0,
        kernel_slope_spec(radius, distance) == 0,
{
}

/// The kernel does not grow with the distance.
pub proof fn lemma_kernel_monotone(radius: int, near: int, far: int)
    requires
        0 <= near <= far,
    ensures
        kernel_spec(radius, near) >= kernel_spec(radius, far),
{
    lemma_volume_bounds(radius);
    lemma_kernel_nonneg(radius, near);
    if far < radius {
        let a = radius - near;
        let b = radius - far;
        let v = kernel_volume(radius);
        lemma_square_le(b, a);
        assert(b * b / v <= a * a / v) by (nonlinear_arith)
            requires
                v >= 1,
                b * b <= a * a,
        ;
    }
}

/// The kernel never rises: its radial derivative is never positive.
pub proof fn lemma_slope_nonpos(radius: int, distance: int)
    ensures
        kernel_slope_spec(radius, distance) <= 0,
{
    lemma_volume_bounds(radius);
    if distance < radius {
        let n = 2 * (distance - radius) * SCALE;
        let v = kernel_volume(radius);
        assert(n < 0);
        assert((-n) / v >= 0) by (nonlinear_arith)
            requires
                v >= 1,
                n < 0,
        ;
    }
}

/// The normalising volume `pi r^8 / 4` of the sixth-power kernel, never
/// below the smallest positive scalar.
pub open spec fn poly6_volume(radius: int) -> int {
    let r2 = sat_mul_spec(radius, radius);
    let r4 = sat_mul_spec(r2 as int, r2 as int);
    let r8 = sat_mul_spec(r4 as int, r4 as int);
    let v = quot(PI * r8, 4 * SCALE);
    if v < 1 { 1 } else { v }
}

/// The difference `r^2 - d^2`, zero where it would be negative.
pub open spec fn poly6_gap(radius: int, distance: int) -> int {
    let g = sat_mul_spec(radius, radius) - sat_mul_spec(distance, distance);
    if g < 0 { 0 } else { g }
}

/// The weight of the sixth-power kernel at `distance` from the centre.
pub open spec fn poly6_spec(radius: int, distance: int) -> i64 {
    if distance >= radius {
        0
    } else {
        let g = poly6_gap(radius, distance);
        let g2 = sat_mul_spec(g, g);
        let g3 = sat_mul_spec(g2 as int, g);
        saturated(quot(g3 * SCALE, poly6_volume(radius)))
    }
}

/// The radial derivative of the sixth-power kernel at `distance` from the centre.
pub open spec fn poly6_slope_spec(radius: int, distance: int) -> i64 {
    if distance >= radius {
        0
    } else {
        let g = poly6_gap(radius, distance);
        let g2 = sat_mul_spec(g, g);
        let t = sat_mul_spec(distance, g2 as int);
        saturated(quot(-6 * t * SCALE, poly6_volume(radius)))
    }
}

/// The weight of the kernel of the given shape.
pub open spec fn weight_spec(shape: KernelShape, radius: int, distance: int) -> i64 {
    match shape {
        KernelShape::Edge => kernel_spec(radius, distance),
        KernelShape::Poly6 => poly6_spec(radius, distance),
    }
}

/// The radial derivative of the kernel of the given shape.
pub open spec fn slope_spec(shape: KernelShape, radius: int, distance: int) -> i64 {
    match shape {
        KernelShape::Edge => kernel_slope_spec(radius, distance),
        KernelShape::Poly6 => poly6_slope_spec(radius, distance),
    }
}

/// A product of scalars that are not negative is not negative, and does not
/// shrink when a factor grows.
pub proof fn lemma_sat_mul_monotone(a: int, b: int, c: int, d: int)
    requires
        0 <= a <= b,
        0 <= c <= d,
    ensures
        0 <= sat_mul_spec(a, c) <= sat_mul_spec(b, d),
{
    assert(0 <= a * c <= b * d) by (nonlinear_arith)
        requires
            0 <= a <= b,
            0 <= c <= d,
    ;
    let x = a * c;
    let y = b * d;
    assert(0 <= x / 1_000_000 <= y / 1_000_000) by (nonlinear_arith)
        requires
            0 <= x <= y,
    ;
}

/// The volume of the sixth-power kernel is a positive scalar.
pub proof fn lemma_poly6_volume_bounds(radius: int)
    ensures
        1 <= poly6_volume(radius) <= i64::MAX,
{
    let r2 = sat_mul_spec(radius, radius);
    let r4 = sat_mul_spec(r2 as int, r2 as int);
    let r8 = sat_mul_spec(r4 as int, r4 as int);
    if r8 >= 0 {
        assert(PI * r8 / (4 * SCALE) <= r8) by (nonlinear_arith)
            requires
                r8 >= 0,
                PI == 3_141_593,
                SCALE == 1_000_000,
        ;
    }
}

/// The square of a scalar, as a fixed-point product, is not negative.
pub proof fn lemma_sat_square_nonneg(a: int)
    ensures
        0 <= sat_mul_spec(a, a),
{
    assert(a * a >= 0) by (nonlinear_arith);
    let x = a * a;
    assert(x / 1_000_000 >= 0) by (nonlinear_arith)
        requires
            x >= 0,
    ;
}

/// The squares of two distances that are not negative are ordered as the distances.
pub proof fn lemma_gap_antitone(radius: int, near: int, far: int)
    requires
        0 <= near <= far,
    ensures
        0 <= poly6_gap(radius, far) <= poly6_gap(radius, near) <= i64::MAX,
{
    lemma_sat_mul_monotone(near, far, near, far);
    lemma_sat_square_nonneg(radius);
}

/// The sixth-power kernel is never negative.
pub proof fn lemma_poly6_nonneg(radius: int, distance: int)
    ensures
        poly6_spec(radius, distance) >= 0,
{
    lemma_poly6_volume_bounds(radius);
    if distance < radius {
        let g = poly6_gap(radius, distance);
        lemma_sat_mul_monotone(0, g, 0, g);
        let g2 = sat_mul_spec(g, g);
        lemma_sat_mul_monotone(0, g2 as int, 0, g);
        let g3 = sat_mul_spec(g2 as int, g);
        let v = poly6_volume(radius);
        let n = g3 * SCALE;
        assert(n / v >= 0) by (nonlinear_arith)
            requires
                n >= 0,
                v >= 1,
        ;
    }
}

/// The sixth-power kernel does not grow with the distance.
pub proof fn lemma_poly6_monotone(radius: int, near: int, far: int)
    requires
        0 <= near <= far,
    ensures
        poly6_spec(radius, near) >= poly6_spec(radius, far),
{
    lemma_poly6_volume_bounds(radius);
    lemma_poly6_nonneg(radius, near);
    if far < radius {
        lemma_gap_antitone(radius, near, far);
        let a = poly6_gap(radius, far);
        let b = poly6_gap(radius, near);
        lemma_sat_mul_monotone(a, b, a, b);
        let a2 = sat_mul_spec(a, a);
        let b2 = sat_mul_spec(b, b);
        lemma_sat_mul_monotone(a2 as int, b2 as int, a, b);
        let a3 = sat_mul_spec(a2 as int, a);
        let b3 = sat_mul_spec(b2 as int, b);
        let v = poly6_volume(radius);
        let x = a3 * SCALE;
        let y = b3 * SCALE;
        assert(0 <= x / v <= y / v) by (nonlinear_arith)
            requires
                0 <= x <= y,
                v >= 1,
        ;
    }
}

/// The sixth-power kernel never rises: its radial derivative is never
/// positive at a distance that is not negative.
pub proof fn lemma_poly6_slope_nonpos(radius: int, distance: int)
    requires
        0 <= distance,
    ensures
        poly6_slope_spec(radius, distance) <= 0,
{
    lemma_poly6_volume_bounds(radius);
    if distance < radius {
        let g = poly6_gap(radius, distance);
        lemma_sat_mul_monotone(0, g, 0, g);
        let g2 = sat_mul_spec(g, g);
        lemma_sat_mul_monotone(0, distance, 0, g2 as int);
        let t = sat_mul_spec(distance, g2 as int);
        let v = poly6_volume(radius);
        let n = 6 * t * SCALE;
        assert(n / v >= 0) by (nonlinear_arith)
            requires
                n >= 0,
                v >= 1,
        ;
    }
}

/// A kernel of either shape is never negative.
pub proof fn lemma_weight_nonneg(shape: KernelShape, radius: int, distance: int)
    ensures
        weight_spec(shape, radius, distance) >= 0,
{
    lemma_kernel_nonneg(radius, distance);
    lemma_poly6_nonneg(radius, distance);
}

/// A kernel of either shape, and its derivative, vanish on and beyond the
/// edge of the support.
pub proof fn lemma_weight_support(shape: KernelShape, radius: int, distance: int)
    requires
        distance >= radius,
    ensures
        weight_spec(shape, radius, distance) == 0,
        slope_spec(shape, radius, distance) == 0,
{
}

/// A kernel of either shape does not grow with the distance.
pub proof fn lemma_weight_monotone(shape: KernelShape, radius: int, near: int, far: int)
    requires
        0 <= near <= far,
    ensures
        weight_spec(shape, radius, near) >= weight_spec(shape, radius, far),
{
    lemma_kernel_monotone(radius, near, far);
    lemma_poly6_monotone(radius, near, far);
}

/// The derivative of a kernel of either shape is never positive at a
/// distance that is not negative.
pub proof fn lemma_weight_slope_nonpos(shape: KernelShape, radius: int, distance: int)
    requires
        0 <= distance,
    ensures
        slope_spec(shape, radius, distance) <= 0,
{
    lemma_slope_nonpos(radius, distance);
    lemma_poly6_slope_nonpos(radius, distance);
}

/// Fixed-point product clamped into the representable range.
pub fn sat_mul(a: i64, b: i64) -> (r: i64)
    ensures
        r == sat_mul_spec(a as int, b as int),
{
    let p = wide_mul(a, b);
    saturate(wide_quot(p, 1_000_000))
}

/// The normalising volume of the kernel with the given radius.
pub fn volume(radius: i64) -> (v: i64)
    ensures
        v == kernel_volume(radius as int),
{
    let r2 = sat_mul(radius, radius);
    let r4 = sat_mul(r2, r2);
    let p = wide_mul(PI, r4);
    let q = wide_quot(p, 6_000_000);
    proof {
        lemma_volume_bounds(radius as int);
        if r4 < 0 {
            assert((-(PI * r4)) / 6_000_000 >= 0) by (nonlinear_arith)
                requires
                    r4 < 0,
                    PI == 3_141_593,
            ;
        }
    }
    if q < 1 { 1 } else { q as i64 }
}

/// The kernel weight `W(radius, distance)`.
pub fn smoothing_kernel(radius: i64, distance: i64) -> (w: i64)
    ensures
        w == kernel_spec(radius as int, distance as int),
        w >= 0,
        distance >= radius ==> w == 0,
{
    proof {
        lemma_kernel_nonneg(radius as int, distance as int);
    }
    if distance >= radius {
        0
    } else {
        let v = volume(radius);
        let diff: u128 = (radius as i128 - distance as i128) as u128;
        proof {
            lemma_square_le(diff as int, 0xFFFF_FFFF_FFFF_FFFF);
        }
        let q: u128 = (diff * diff) / (v as u128);
        if q > 0x7FFF_FFFF_FFFF_FFFF { i64::MAX } else { q as i64 }
    }
}

/// The radial derivative `W'(radius, distance)`.
pub fn smoothing_kernel_derivative(radius: i64, distance: i64) -> (s: i64)
    ensures
        s == kernel_slope_spec(radius as int, distance as int),
        s <= 0,
        distance >= radius ==> s == 0,
{
    proof {
        lemma_slope_nonpos(radius as int, distance as int);
    }
    if distance >= radius {
        0
    } else {
        let v = volume(radius);
        let diff: i128 = distance as i128 - radius as i128;
        saturate(wide_quot(diff * 2_000_000, v as i128))
    }
}

/// The normalising volume of the sixth-power kernel with the given radius.
pub fn poly6_volume_of(radius: i64) -> (v: i64)
    ensures
        v == poly6_volume(radius as int),
{
    let r2 = sat_mul(radius, radius);
    let r4 = sat_mul(r2, r2);
    let r8 = sat_mul(r4, r4);
    let p = wide_mul(PI, r8);
    let q = wide_quot(p, 4_000_000);
    proof {
        lemma_poly6_volume_bounds(radius as int);
        if r8 < 0 {
            assert((-(PI * r8)) / 4_000_000 >= 0) by (nonlinear_arith)
                requires
                    r8 < 0,
                    PI == 3_141_593,
            ;
        }
    }
    if q < 1 { 1 } else { q as i64 }
}

/// The difference `radius^2 - distance^2`, zero where it would be negative.
pub fn poly6_gap_of(radius: i64, distance: i64) -> (g: i64)
    ensures
        g == poly6_gap(radius as int, distance as int),
        g >= 0,
{
    proof {
        lemma_sat_square_nonneg(radius as int);
        lemma_sat_square_nonneg(distance as int);
    }
    let g = sat_mul(radius, radius) - sat_mul(distance, distance);
    if g < 0 { 0 } else { g }
}

/// The weight of the sixth-power kernel.
pub fn poly6_kernel(radius: i64, distance: i64) -> (w: i64)
    ensures
        w == poly6_spec(radius as int, distance as int),
        w >= 0,
        distance >= radius ==> w == 0,
{
    proof {
        lemma_poly6_nonneg(radius as int, distance as int);
    }
    if distance >= radius {
        0
    } else {
        let g = poly6_gap_of(radius, distance);
        let g3 = sat_mul(sat_mul(g, g), g);
        let v = poly6_volume_of(radius);
        saturate(wide_quot(wide_mul(g3, SCALE), v as i128))
    }
}

/// The radial derivative of the sixth-power kernel.
pub fn poly6_kernel_derivative(radius: i64, distance: i64) -> (s: i64)
    ensures
        s == poly6_slope_spec(radius as int, distance as int),
        distance >= radius ==> s == 0,
        0 <= distance ==> s <= 0,
{
    proof {
        if 0 <= distance {
            lemma_poly6_slope_nonpos(radius as int, distance as int);
        }
    }
    if distance >= radius {
        0
    } else {
        let g = poly6_gap_of(radius, distance);
        let t = sat_mul(distance, sat_mul(g, g));
        let v = poly6_volume_of(radius);
        saturate(wide_quot((t as i128) * (-6_000_000), v as i128))
    }
}

/// The weight of the kernel of the given shape.
pub fn kernel_weight(shape: KernelShape, radius: i64, distance: i64) -> (w: i64)
    ensures
        w == weight_spec(shape, radius as int, distance as int),
        w >= 0,
        distance >= radius ==> w == 0,
{
    match shape {
        KernelShape::Edge => smoothing_kernel(radius, distance),
        KernelShape::Poly6 => poly6_kernel(radius, distance),
    }
}

/// The radial derivative of the kernel of the given shape.
pub fn kernel_slope(shape: KernelShape, radius: i64, distance: i64) -> (s: i64)
    ensures
        s == slope_spec(shape, radius as int, distance as int),
        distance >= radius ==> s == 0,
        0 <= distance ==> s <= 0,
{
    match shape {
        KernelShape::Edge => smoothing_kernel_derivative(radius, distance),
        KernelShape::Poly6 => poly6_kernel_derivative(radius, distance),
    }
}

} // verus!
