//! How far a density moves when the particles move.
//!
//! A particle that moves by at most `delta` along each axis changes its
//! distance to another such particle by at most `4 * delta`. The kernel never
//! rises with the distance, so the contribution of a neighbour can change by
//! no more than the kernel varies over that window, and the density by no
//! more than the sum of these variations. Where nothing moves, nothing changes.

use vstd::prelude::*;
use crate::density::{density_spec, density_term, density_weight};
use crate::fixed::{floor_sqrt, lemma_floor_sqrt, lemma_floor_sqrt_below, magnitude, SCALE};
use crate::grid::{entry_of, GridEntry};
use crate::kernel::{
    kernel_spec, kernel_volume, lemma_kernel_monotone, lemma_kernel_nonneg, lemma_sat_mul_monotone,
    lemma_volume_bounds, lemma_weight_monotone, lemma_weight_nonneg, sat_mul_spec, weight_spec,
    KernelShape,
};
use crate::params::Params;
use crate::particle::Particle;
use crate::sums::total;
use crate::vec2::{dist_sq, lemma_distance_dominates, lemma_square_nonneg, Vec2};

verus! {

/// The second point lies within `delta` of the first along each axis.
pub open spec fn near(a: Vec2, b: Vec2, delta: int) -> bool {
    &&& -delta <= b.x - a.x <= delta
    &&& -delta <= b.y - a.y <= delta
}

/// The second store holds the particles of the first, each under its handle
/// and within `delta` of where it was along each axis.
pub open spec fn displaced_within(before: Seq<Particle>, after: Seq<Particle>, delta: int) -> bool {
    &&& before.len() == after.len()
    &&& forall|i: int|
        0 <= i < before.len() ==> (#[trigger] after[i]).handle == before[i].handle && near(
            before[i].position,
            after[i].position,
            delta,
        )
}

/// The distance between two points, rounded down, as an integer.
pub open spec fn span(a: Vec2, b: Vec2) -> int {
    floor_sqrt(dist_sq(a, b))
}

/// What a neighbour at the given distance adds to a density.
pub open spec fn term_at(d: int, params: Params) -> int {
    if d < params.smoothing_radius {
        sat_mul_spec(params.mass as int, weight_spec(params.kernel, params.smoothing_radius as int, d) as int) as int
    } else {
        0
    }
}

/// How much the contribution of a neighbour varies while its distance stays
/// within `window` of `d`.
pub open spec fn variation(d: int, window: int, params: Params) -> int {
    term_at(if d - window < 0 { 0 } else { d - window }, params) - term_at(d + window, params)
}

/// The variation of the contribution of the particle behind an entry to the
/// density at `point`, as a function of the entry.
pub open spec fn variation_weight(point: Vec2, window: int, params: Params) -> spec_fn(GridEntry) -> int {
    |e: GridEntry| variation(span(e.position, point), window, params)
}

/// The largest change of the density at a point when every particle and the
/// point itself move by at most `delta` along each axis.
pub open spec fn spread(particles: Seq<Particle>, point: Vec2, delta: int, params: Params) -> int {
    total(particles, variation_weight(point, 4 * delta, params))
}

/// The contribution of a neighbour depends on its distance alone.
pub proof fn lemma_term_at(point: Vec2, e: GridEntry, params: Params)
    ensures
        density_term(point, e, params) == term_at(span(e.position, point), params),
        0 <= span(e.position, point),
{
    lemma_square_nonneg(point.x - e.position.x);
    lemma_square_nonneg(point.y - e.position.y);
    lemma_floor_sqrt(dist_sq(e.position, point));
}

/// The contribution of a neighbour is never negative and never rises with
/// the distance.
pub proof fn lemma_term_monotone(closer: int, farther: int, params: Params)
    requires
        params.valid(),
        0 <= closer <= farther,
    ensures
        0 <= term_at(farther, params) <= term_at(closer, params),
{
    let r = params.smoothing_radius as int;
    lemma_weight_nonneg(params.kernel, r, closer);
    lemma_weight_nonneg(params.kernel, r, farther);
    lemma_weight_monotone(params.kernel, r, closer, farther);
    let wc = weight_spec(params.kernel, r, closer) as int;
    let wf = weight_spec(params.kernel, r, farther) as int;
    lemma_sat_mul_monotone(params.mass as int, params.mass as int, wf, wc);
    lemma_sat_mul_monotone(params.mass as int, params.mass as int, 0, wc);
    lemma_sat_mul_monotone(params.mass as int, params.mass as int, 0, wf);
}

/// A contribution changes by no more than its variation over the window in
/// which the distance stays.
pub proof fn lemma_term_window(d: int, moved: int, window: int, params: Params)
    requires
        params.valid(),
        0 <= d,
        0 <= moved,
        d - window <= moved <= d + window,
    ensures
        0 <= variation(d, window, params),
        -variation(d, window, params) <= term_at(moved, params) - term_at(d, params) <= variation(
            d,
            window,
            params,
        ),
{
    let low = if d - window < 0 { 0 } else { d - window };
    lemma_term_monotone(low, moved, params);
    lemma_term_monotone(moved, d + window, params);
    lemma_term_monotone(low, d, params);
    lemma_term_monotone(d, d + window, params);
}

/// Where the distance cannot change, the contribution does not vary.
pub proof fn lemma_no_window_no_variation(d: int, params: Params)
    requires
        0 <= d,
    ensures
        variation(d, 0, params) == 0,
{
}

proof fn lemma_grown_square(x: int, y: int, delta: int, m: int)
    by (nonlinear_arith)
    requires
        0 <= delta,
        -2 * delta <= y - x <= 2 * delta,
        m == if x < 0 { -x } else { x },
    ensures
        y * y <= x * x + 4 * delta * m + 4 * delta * delta,
{
}

proof fn lemma_window_square(d: int, delta: int, mx: int, my: int, sum: int)
    by (nonlinear_arith)
    requires
        0 <= delta,
        0 <= mx <= d,
        0 <= my <= d,
        sum < (d + 1) * (d + 1) + 4 * delta * mx + 4 * delta * my + 4 * delta * delta + 4 * delta * delta,
    ensures
        sum < (d + 1 + 4 * delta) * (d + 1 + 4 * delta),
{
}

/// Two points that each move by at most `delta` along each axis end up at
/// most `4 * delta` farther apart.
pub proof fn lemma_span_grows_slowly(a: Vec2, b: Vec2, a2: Vec2, b2: Vec2, delta: int)
    requires
        0 <= delta,
        near(a, a2, delta),
        near(b, b2, delta),
    ensures
        0 <= span(a2, b2) <= span(a, b) + 4 * delta,
{
    let d = span(a, b);
    let x = b.x - a.x;
    let y = b.y - a.y;
    let x2 = b2.x - a2.x;
    let y2 = b2.y - a2.y;
    let mx = magnitude(x);
    let my = magnitude(y);
    lemma_distance_dominates(a, b);
    lemma_square_nonneg(x);
    lemma_square_nonneg(y);
    lemma_square_nonneg(x2);
    lemma_square_nonneg(y2);
    lemma_floor_sqrt(dist_sq(a, b));
    lemma_floor_sqrt(dist_sq(a2, b2));
    lemma_grown_square(x, x2, delta, mx);
    lemma_grown_square(y, y2, delta, my);
    assert(dist_sq(a, b) == x * x + y * y);
    assert(dist_sq(a2, b2) == x2 * x2 + y2 * y2);
    assert(x * x + y * y < (d + 1) * (d + 1));
    assert(x2 * x2 <= x * x + 4 * delta * mx + 4 * delta * delta);
    assert(y2 * y2 <= y * y + 4 * delta * my + 4 * delta * delta);
    lemma_window_square(d, delta, mx, my, dist_sq(a2, b2));
    lemma_floor_sqrt_below(dist_sq(a2, b2), d + 1 + 4 * delta);
}

/// Two points that each move by at most `delta` along each axis change
/// their distance by at most `4 * delta`.
pub proof fn lemma_span_moves_little(a: Vec2, b: Vec2, a2: Vec2, b2: Vec2, delta: int)
    requires
        0 <= delta,
        near(a, a2, delta),
        near(b, b2, delta),
    ensures
        0 <= span(a, b),
        0 <= span(a2, b2),
        span(a, b) - 4 * delta <= span(a2, b2) <= span(a, b) + 4 * delta,
{
    lemma_span_grows_slowly(a, b, a2, b2, delta);
    lemma_span_grows_slowly(a2, b2, a, b, delta);
}

/// The sum of the contributions to a density moves by at most the spread
/// when every particle and the point move by at most `delta` along each axis.
pub proof fn lemma_sum_moves_little(
    before: Seq<Particle>,
    after: Seq<Particle>,
    point: Vec2,
    moved: Vec2,
    delta: int,
    params: Params,
)
    requires
        params.valid(),
        0 <= delta,
        displaced_within(before, after, delta),
        near(point, moved, delta),
    ensures
        0 <= spread(before, point, delta, params),
        total(before, density_weight(point, params)) - spread(before, point, delta, params) <= total(
            after,
            density_weight(moved, params),
        ) <= total(before, density_weight(point, params)) + spread(before, point, delta, params),
    decreases before.len(),
{
    if before.len() > 0 {
        let b = before.drop_last();
        let a = after.drop_last();
        assert forall|i: int| 0 <= i < b.len() implies (#[trigger] a[i]).handle == b[i].handle && near(
            b[i].position,
            a[i].position,
            delta,
        ) by {
            assert(a[i] == after[i]);
            assert(b[i] == before[i]);
        }
        lemma_sum_moves_little(b, a, point, moved, delta, params);
        let p = before.last();
        let q = after.last();
        assert(q == after[before.len() - 1]);
        assert(p == before[before.len() - 1]);
        lemma_term_at(point, entry_of(p), params);
        lemma_term_at(moved, entry_of(q), params);
        lemma_span_moves_little(p.position, point, q.position, moved, delta);
        lemma_term_window(span(p.position, point), span(q.position, moved), 4 * delta, params);
    }
}

/// The density at a point moves by at most the spread when every particle
/// and the point move by at most `delta` along each axis.
pub proof fn lemma_density_moves_little(
    before: Seq<Particle>,
    after: Seq<Particle>,
    point: Vec2,
    moved: Vec2,
    delta: int,
    params: Params,
)
    requires
        params.valid(),
        0 <= delta,
        displaced_within(before, after, delta),
        near(point, moved, delta),
    ensures
        0 <= spread(before, point, delta, params),
        density_spec(before, point, params) - spread(before, point, delta, params) <= density_spec(
            after,
            moved,
            params,
        ) <= density_spec(before, point, params) + spread(before, point, delta, params),
{
    lemma_sum_moves_little(before, after, point, moved, delta, params);
}

/// Where nothing moves, the spread is null.
pub proof fn lemma_no_move_no_spread(particles: Seq<Particle>, point: Vec2, params: Params)
    ensures
        spread(particles, point, 0, params) == 0,
    decreases particles.len(),
{
    if particles.len() > 0 {
        lemma_no_move_no_spread(particles.drop_last(), point, params);
        lemma_term_at(point, entry_of(particles.last()), params);
        lemma_no_window_no_variation(span(particles.last().position, point), params);
    }
}

/// A store whose particles are where they were has the densities it had,
/// whatever has become of the velocities.
pub proof fn lemma_same_places_same_density(
    before: Seq<Particle>,
    after: Seq<Particle>,
    point: Vec2,
    params: Params,
)
    requires
        params.valid(),
        displaced_within(before, after, 0),
    ensures
        density_spec(after, point, params) == density_spec(before, point, params),
{
    lemma_density_moves_little(before, after, point, point, 0, params);
    lemma_no_move_no_spread(before, point, params);
}

/// The most that the edge kernel can change over a stretch of distances of
/// the given length: its steepest slope, `2 r / volume`, times the length,
/// and one raw unit for the rounding.
pub open spec fn edge_kernel_modulus(length: int, radius: int) -> int {
    2 * radius * length / kernel_volume(radius) + 1
}

/// The most that the contribution of a neighbour can vary under the edge
/// kernel while its distance stays within `window`: the mass times the most
/// that the kernel can change over twice the window, and one raw unit for
/// the rounding.
pub open spec fn edge_variation_bound(window: int, params: Params) -> int {
    params.mass * edge_kernel_modulus(2 * window, params.smoothing_radius as int) / (SCALE as int) + 1
}

proof fn lemma_floor_gap(a: int, b: int, v: int)
    by (nonlinear_arith)
    requires
        0 <= b <= a,
        1 <= v,
    ensures
        0 <= b / v <= a / v <= b / v + (a - b) / v + 1,
{
}

proof fn lemma_floor_ordered(a: int, b: int, v: int)
    by (nonlinear_arith)
    requires
        0 <= a <= b,
        1 <= v,
    ensures
        0 <= a / v <= b / v,
{
}

proof fn lemma_edge_squares(r: int, lo: int, hi: int)
    by (nonlinear_arith)
    requires
        0 <= lo <= hi,
        lo < r,
    ensures
        hi < r ==> 0 <= (r - hi) * (r - hi) <= (r - lo) * (r - lo) && (r - lo) * (r - lo) - (r - hi) * (r
            - hi) <= 2 * r * (hi - lo),
        hi >= r ==> 0 <= (r - lo) * (r - lo) <= 2 * r * (hi - lo),
{
}

/// The edge kernel changes by no more than its modulus between two distances.
pub proof fn lemma_edge_kernel_modulus(radius: int, lo: int, hi: int)
    requires
        0 < radius,
        0 <= lo <= hi,
    ensures
        0 <= kernel_spec(radius, hi) <= kernel_spec(radius, lo) <= kernel_spec(radius, hi)
            + edge_kernel_modulus(hi - lo, radius),
{
    let v = kernel_volume(radius);
    lemma_volume_bounds(radius);
    lemma_kernel_nonneg(radius, hi);
    lemma_kernel_monotone(radius, lo, hi);
    let stretch = 2 * radius * (hi - lo);
    assert(stretch >= 0) by (nonlinear_arith)
        requires
            radius > 0,
            hi - lo >= 0,
            stretch == 2 * radius * (hi - lo),
    ;
    lemma_floor_ordered(0, stretch, v);
    if lo < radius {
        lemma_edge_squares(radius, lo, hi);
        let a = (radius - lo) * (radius - lo);
        if hi < radius {
            let b = (radius - hi) * (radius - hi);
            lemma_floor_gap(a, b, v);
            lemma_floor_ordered(a - b, stretch, v);
        } else {
            lemma_floor_ordered(a, stretch, v);
        }
    }
}

/// Under the edge kernel the contribution of a neighbour varies by no more
/// than the bound, whatever its distance.
pub proof fn lemma_edge_variation(d: int, window: int, params: Params)
    requires
        params.valid(),
        params.kernel == KernelShape::Edge,
        0 <= d,
        0 <= window,
    ensures
        0 <= variation(d, window, params) <= edge_variation_bound(window, params),
{
    let r = params.smoothing_radius as int;
    let m = params.mass as int;
    let lo = if d - window < 0 { 0 } else { d - window };
    let hi = d + window;
    lemma_term_monotone(lo, hi, params);
    lemma_edge_kernel_modulus(r, lo, hi);
    let wl = kernel_spec(r, lo) as int;
    let wh = kernel_spec(r, hi) as int;
    let k = edge_kernel_modulus(hi - lo, r);
    let kk = edge_kernel_modulus(2 * window, r);
    assert(k <= kk) by {
        lemma_volume_bounds(r);
        let x = 2 * r * (hi - lo);
        let y = 2 * r * (2 * window);
        assert(0 <= x <= y) by (nonlinear_arith)
            requires
                r > 0,
                0 <= hi - lo <= 2 * window,
                x == 2 * r * (hi - lo),
                y == 2 * r * (2 * window),
        ;
        lemma_floor_ordered(x, y, kernel_volume(r));
    }
    let a = m * wl;
    let b = m * wh;
    let c = m * kk;
    assert(0 <= b <= a && a - b <= c) by (nonlinear_arith)
        requires
            m > 0,
            0 <= wh <= wl,
            wl - wh <= kk,
            a == m * wl,
            b == m * wh,
            c == m * kk,
    ;
    lemma_floor_gap(a, b, 1_000_000);
    lemma_floor_ordered(a - b, c, 1_000_000);
}

/// Under the edge kernel the spread is at most the bound for one neighbour
/// times the number of particles.
pub proof fn lemma_edge_spread(particles: Seq<Particle>, point: Vec2, delta: int, params: Params)
    requires
        params.valid(),
        params.kernel == KernelShape::Edge,
        0 <= delta,
    ensures
        0 <= spread(particles, point, delta, params) <= particles.len() * edge_variation_bound(
            4 * delta,
            params,
        ),
    decreases particles.len(),
{
    let bound = edge_variation_bound(4 * delta, params);
    if particles.len() > 0 {
        lemma_edge_spread(particles.drop_last(), point, delta, params);
        lemma_term_at(point, entry_of(particles.last()), params);
        lemma_edge_variation(span(particles.last().position, point), 4 * delta, params);
        let n = particles.len() as int;
        assert((n - 1) * bound + bound == n * bound) by (nonlinear_arith);
    } else {
        assert(0 * bound == 0) by (nonlinear_arith);
    }
}

} // verus!
