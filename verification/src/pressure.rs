//! The pressure force.
//!
//! The pressure at a particle follows from its density by a linear equation of
//! state. Every neighbour within the smoothing radius pushes or pulls along
//! the line between the two, in proportion to the slope of the kernel.

use vstd::prelude::*;
use crate::fixed::{
    checked, div_spec, fits, fx_div, fx_mul, fx_sub, lemma_floor_sqrt, mul_spec, narrow,
};
use crate::grid::{cell_of, entry_of, hash_position, in_block, GridEntry, SpatialGrid};
use crate::kernel::{kernel_slope, slope_spec};
use crate::params::Params;
use crate::particle::Particle;
use crate::sums::{lemma_near_in_block, lemma_neighbor_sum, lemma_sum_take, sum_over, total};
use crate::vec2::{
    closer_than, dist_sq, distance, distance_spec, unit_component, unit_vector, Vec2,
};

verus! {

/// The equation of state: `(density - rest density) * stiffness`. Negative
/// below the rest density; not finite when a step leaves the range.
pub open spec fn pressure_spec(density: int, params: Params) -> Option<i64> {
    match checked(density - params.rest_density) {
        None => None,
        Some(excess) => mul_spec(excess as int, params.stiffness as int),
    }
}

/// One coordinate of the force that a neighbour exerts:
/// `-pressure * direction * slope * mass / density`, evaluated from the left.
pub open spec fn force_component(
    pressure: i64,
    direction: int,
    slope: i64,
    density: i64,
    params: Params,
) -> Option<i64> {
    match checked(-pressure) {
        None => None,
        Some(a) => match mul_spec(a as int, direction) {
            None => None,
            Some(b) => match mul_spec(b as int, slope as int) {
                None => None,
                Some(c) => match mul_spec(c as int, params.mass as int) {
                    None => None,
                    Some(e) => div_spec(e as int, density as int),
                },
            },
        },
    }
}

/// The force that the particle behind an entry exerts on a particle at
/// `point` with the given density. Null when the two coincide, when they are
/// not closer than the smoothing radius, or when their distance is not
/// finite; `None` when the force itself is not finite.
pub open spec fn pair_force_spec(point: Vec2, e: GridEntry, density: i64, params: Params) -> Option<Vec2> {
    match distance_spec(e.position, point) {
        None => Some(Vec2 { x: 0, y: 0 }),
        Some(d) => if d == 0 || d >= params.smoothing_radius {
            Some(Vec2 { x: 0, y: 0 })
        } else {
            match pressure_spec(density as int, params) {
                None => None,
                Some(p) => {
                    let slope = slope_spec(params.kernel, params.smoothing_radius as int, d as int);
                    let nx = unit_component(e.position.x - point.x, d as int);
                    let ny = unit_component(e.position.y - point.y, d as int);
                    match (
                        force_component(p, nx, slope, density, params),
                        force_component(p, ny, slope, density, params),
                    ) {
                        (Some(fx), Some(fy)) => Some(Vec2 { x: fx, y: fy }),
                        _ => None,
                    }
                },
            }
        },
    }
}

/// The first coordinate of the force of a neighbour, null when not finite.
pub open spec fn force_x(point: Vec2, density: i64, params: Params) -> spec_fn(GridEntry) -> int {
    |e: GridEntry|
        match pair_force_spec(point, e, density, params) {
            Some(f) => f.x as int,
            None => 0,
        }
}

/// The second coordinate of the force of a neighbour, null when not finite.
pub open spec fn force_y(point: Vec2, density: i64, params: Params) -> spec_fn(GridEntry) -> int {
    |e: GridEntry|
        match pair_force_spec(point, e, density, params) {
            Some(f) => f.y as int,
            None => 0,
        }
}

/// One for a neighbour whose force is not finite, zero for any other.
pub open spec fn force_lost(point: Vec2, density: i64, params: Params) -> spec_fn(GridEntry) -> int {
    |e: GridEntry|
        match pair_force_spec(point, e, density, params) {
            Some(f) => 0,
            None => 1,
        }
}

/// The force with the given coordinates, `None` when a coordinate is not
/// finite or when the force of at least one neighbour was not.
pub open spec fn force_from(x: int, y: int, lost: int) -> Option<Vec2> {
    if lost == 0 && fits(x) && fits(y) {
        Some(Vec2 { x: x as i64, y: y as i64 })
    } else {
        None
    }
}

/// The pressure force on a particle at `point` due to a sequence of entries.
pub open spec fn neighbor_force(entries: Seq<GridEntry>, point: Vec2, density: i64, params: Params) -> Option<Vec2> {
    force_from(
        sum_over(entries, force_x(point, density, params)),
        sum_over(entries, force_y(point, density, params)),
        sum_over(entries, force_lost(point, density, params)),
    )
}

/// The pressure force on a particle at `point` due to all particles of a store.
pub open spec fn pressure_force_spec(particles: Seq<Particle>, point: Vec2, density: i64, params: Params) -> Option<Vec2> {
    force_from(
        total(particles, force_x(point, density, params)),
        total(particles, force_y(point, density, params)),
        total(particles, force_lost(point, density, params)),
    )
}

/// A pair that is not closer than the smoothing radius exchanges no force.
pub proof fn lemma_no_force_beyond_radius(point: Vec2, e: GridEntry, density: i64, params: Params)
    requires
        !closer_than(e.position, point, params.smoothing_radius as int),
    ensures
        pair_force_spec(point, e, density, params) == Some(Vec2 { x: 0, y: 0 }),
{
}

/// A particle exerts no force on itself, nor on one at the same place.
pub proof fn lemma_no_self_force(point: Vec2, e: GridEntry, density: i64, params: Params)
    requires
        e.position == point,
    ensures
        pair_force_spec(point, e, density, params) == Some(Vec2 { x: 0, y: 0 }),
{
    assert(dist_sq(point, point) == 0) by (nonlinear_arith);
    lemma_floor_sqrt(0);
}

/// The force that the grid yields is the force due to the whole store, as
/// long as the cells are at least as wide as the smoothing radius.
pub proof fn lemma_grid_force(
    grid: SpatialGrid,
    particles: Seq<Particle>,
    point: Vec2,
    density: i64,
    params: Params,
)
    requires
        params.valid(),
        grid.indexes(particles),
        grid.cell_size() >= params.smoothing_radius,
    ensures
        neighbor_force(grid.block(cell_of(point, grid.cell_size())), point, density, params)
            == pressure_force_spec(particles, point, density, params),
{
    let center = cell_of(point, grid.cell_size());
    let fx = force_x(point, density, params);
    let fy = force_y(point, density, params);
    let fl = force_lost(point, density, params);
    assert forall|j: int|
        0 <= j < particles.len() && !in_block(
            cell_of((#[trigger] particles[j]).position, grid.cell_size()),
            center,
        ) implies fx(entry_of(particles[j])) == 0 && fy(entry_of(particles[j])) == 0 && fl(
        entry_of(particles[j]),
    ) == 0 by {
        let q = particles[j].position;
        if closer_than(q, point, params.smoothing_radius as int) {
            lemma_near_in_block(point, q, grid.cell_size(), params.smoothing_radius as int);
        }
    }
    lemma_neighbor_sum(grid, particles, center, fx);
    lemma_neighbor_sum(grid, particles, center, fy);
    lemma_neighbor_sum(grid, particles, center, fl);
}

/// The pressure at the given density.
pub fn density_to_pressure(density: i64, params: &Params) -> (p: Option<i64>)
    ensures
        p == pressure_spec(density as int, *params),
{
    match fx_sub(density, params.rest_density) {
        None => None,
        Some(excess) => fx_mul(excess, params.stiffness),
    }
}

/// One coordinate of the force that a neighbour exerts.
pub fn force_along(pressure: i64, direction: i64, slope: i64, density: i64, params: &Params) -> (r: Option<i64>)
    ensures
        r == force_component(pressure, direction as int, slope, density, *params),
{
    match narrow(-(pressure as i128)) {
        None => None,
        Some(a) => match fx_mul(a, direction) {
            None => None,
            Some(b) => match fx_mul(b, slope) {
                None => None,
                Some(c) => match fx_mul(c, params.mass) {
                    None => None,
                    Some(e) => fx_div(e, density),
                },
            },
        },
    }
}

/// The force that the particle behind an entry exerts on a particle at
/// `point` with the given density.
pub fn pair_force(point: Vec2, e: &GridEntry, density: i64, params: &Params) -> (r: Option<Vec2>)
    ensures
        r == pair_force_spec(point, *e, density, *params),
        !closer_than(e.position, point, params.smoothing_radius as int) ==> r == Some(Vec2 { x: 0, y: 0 }),
{
    let zero = Vec2 { x: 0, y: 0 };
    match distance(e.position, point) {
        None => Some(zero),
        Some(d) => {
            if d == 0 || d >= params.smoothing_radius {
                return Some(zero);
            }
            match density_to_pressure(density, params) {
                None => None,
                Some(p) => {
                    let slope = kernel_slope(params.kernel, params.smoothing_radius, d);
                    let n = unit_vector(point, e.position, d);
                    match (
                        force_along(p, n.x, slope, density, params),
                        force_along(p, n.y, slope, density, params),
                    ) {
                        (Some(fx), Some(fy)) => Some(Vec2 { x: fx, y: fy }),
                        _ => None,
                    }
                },
            }
        },
    }
}

/// A count of neighbours times the largest magnitude of a force stays inside 128 bits.
pub proof fn lemma_force_span(count: int)
    by (nonlinear_arith)
    requires
        0 <= count <= 0xFFFF_FFFF_FFFF_FFFF,
    ensures
        count * 0x8000_0000_0000_0000 <= 0x7FFF_FFFF_FFFF_FFFF_8000_0000_0000_0000,
{
}

/// The pressure force on a particle at `point` with the given density, due to
/// the entries that the grid holds in the block of cells around it.
pub fn calculate_pressure_force(grid: &SpatialGrid, point: Vec2, density: i64, params: &Params) -> (r: Option<Vec2>)
    ensures
        r == neighbor_force(grid.block(cell_of(point, grid.cell_size())), point, density, *params),
{
    let cell = hash_position(point, grid.width());
    let near = grid.neighbors(cell);
    let ghost fx = force_x(point, density, *params);
    let ghost fy = force_y(point, density, *params);
    let ghost fl = force_lost(point, density, *params);
    let mut sx: i128 = 0;
    let mut sy: i128 = 0;
    let mut lost: bool = false;
    let mut k: usize = 0;
    while k < near.len()
        invariant
            k <= near@.len(),
            fx == force_x(point, density, *params),
            fy == force_y(point, density, *params),
            fl == force_lost(point, density, *params),
            sx == sum_over(near@.take(k as int), fx),
            sy == sum_over(near@.take(k as int), fy),
            -(k * 0x8000_0000_0000_0000) <= sx <= k * 0x8000_0000_0000_0000,
            -(k * 0x8000_0000_0000_0000) <= sy <= k * 0x8000_0000_0000_0000,
            0 <= sum_over(near@.take(k as int), fl),
            lost <==> sum_over(near@.take(k as int), fl) > 0,
        decreases near@.len() - k,
    {
        proof {
            lemma_sum_take(near@, k as int, fx);
            lemma_sum_take(near@, k as int, fy);
            lemma_sum_take(near@, k as int, fl);
            lemma_force_span(k + 1);
        }
        let e = near[k];
        match pair_force(point, &e, density, params) {
            Some(f) => {
                sx = sx + f.x as i128;
                sy = sy + f.y as i128;
            },
            None => {
                lost = true;
            },
        }
        k += 1;
    }
    assert(near@.take(k as int) == near@);
    if lost {
        None
    } else {
        match (narrow(sx), narrow(sy)) {
            (Some(x), Some(y)) => Some(Vec2 { x, y }),
            _ => None,
        }
    }
}

} // verus!
