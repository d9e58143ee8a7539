//! The integrator.
//!
//! Semi-implicit Euler: the velocity takes up the pressure acceleration and
//! gravity over the time step and is damped; the position then moves with the
//! new velocity. A value that is not finite is never stored: where the
//! pressure acceleration is not finite the velocity is not updated in that
//! tick, a velocity that is not finite becomes null, and a position that
//! would not be finite stays where it was.

use vstd::prelude::*;
use crate::density::{cache_entries, DensityCache};
use crate::fixed::{checked, div_spec, fx_add, fx_div, fx_mul, fx_sub, magnitude, mul_spec, SCALE};
use crate::grid::SpatialGrid;
use crate::params::Params;
use crate::particle::Particle;
use crate::pressure::{calculate_pressure_force, lemma_grid_force, pressure_force_spec};
use crate::vec2::Vec2;

verus! {

/// The time step of a tick: the elapsed time, but at least the smallest
/// positive scalar.
pub open spec fn clamp_dt(elapsed: i64) -> i64 {
    if elapsed < 1 { 1 } else { elapsed }
}

/// The density used as a divisor: at least the smallest positive scalar.
pub open spec fn floor_density(density: i64) -> i64 {
    if density < 1 { 1 } else { density }
}

/// A vector times a scalar, `None` when a coordinate is not finite.
pub open spec fn scaled(v: Vec2, factor: i64) -> Option<Vec2> {
    match (mul_spec(v.x as int, factor as int), mul_spec(v.y as int, factor as int)) {
        (Some(x), Some(y)) => Some(Vec2 { x, y }),
        _ => None,
    }
}

/// The sum of two vectors, `None` when a coordinate is not finite.
pub open spec fn summed(a: Vec2, b: Vec2) -> Option<Vec2> {
    match (checked(a.x + b.x), checked(a.y + b.y)) {
        (Some(x), Some(y)) => Some(Vec2 { x, y }),
        _ => None,
    }
}

/// The acceleration that a force causes at the given density: the force
/// divided by the density.
pub open spec fn acceleration_spec(force: Option<Vec2>, density: i64) -> Option<Vec2> {
    match force {
        None => None,
        Some(f) => match (div_spec(f.x as int, density as int), div_spec(f.y as int, density as int)) {
            (Some(x), Some(y)) => Some(Vec2 { x, y }),
            _ => None,
        },
    }
}

/// The velocity after the pressure acceleration has acted for the time step.
pub open spec fn pushed(v: Vec2, acceleration: Vec2, dt: i64) -> Option<Vec2> {
    match scaled(acceleration, dt) {
        None => None,
        Some(dv) => summed(v, dv),
    }
}

/// The velocity after gravity has acted for the time step.
pub open spec fn fallen(v: Option<Vec2>, dt: i64, params: Params) -> Option<Vec2> {
    match v {
        None => None,
        Some(v) => match mul_spec(params.gravity as int, dt as int) {
            None => None,
            Some(g) => match checked(v.y - g) {
                None => None,
                Some(y) => Some(Vec2 { x: v.x, y }),
            },
        },
    }
}

/// The velocity after damping.
pub open spec fn damped(v: Option<Vec2>, params: Params) -> Option<Vec2> {
    match v {
        None => None,
        Some(v) => scaled(v, params.damping),
    }
}

/// A velocity that is not finite becomes null.
pub open spec fn settled(v: Option<Vec2>) -> Vec2 {
    match v {
        Some(v) => v,
        None => Vec2 { x: 0, y: 0 },
    }
}

/// The velocity of a particle after a tick, given the pressure force on it.
/// Where the pressure acceleration is not finite, the velocity is not
/// updated: the particle keeps the velocity it had.
pub open spec fn velocity_after(v: Vec2, force: Option<Vec2>, density: i64, dt: i64, params: Params) -> Vec2 {
    match acceleration_spec(force, density) {
        None => v,
        Some(a) => settled(damped(fallen(pushed(v, a, dt), dt, params), params)),
    }
}

/// Particle `i` of a store after the velocities have been advanced. A
/// particle without an entry in the cache is left as it is.
pub open spec fn accelerated(
    particles: Seq<Particle>,
    i: int,
    cache: Map<u64, i64>,
    dt: i64,
    params: Params,
) -> Particle {
    let p = particles[i];
    if cache.contains_key(p.handle) {
        let rho = floor_density(cache[p.handle]);
        Particle {
            handle: p.handle,
            position: p.position,
            velocity: velocity_after(
                p.velocity,
                pressure_force_spec(particles, p.position, rho, params),
                rho,
                dt,
                params,
            ),
        }
    } else {
        p
    }
}

/// A store after the velocities have been advanced.
pub open spec fn accelerated_all(particles: Seq<Particle>, cache: Map<u64, i64>, dt: i64, params: Params) -> Seq<Particle> {
    Seq::new(particles.len(), |i: int| accelerated(particles, i, cache, dt, params))
}

/// A particle after it has moved with its velocity for the time step. A
/// position that would not be finite is not taken up.
pub open spec fn moved(p: Particle, dt: i64) -> Particle {
    match scaled(p.velocity, dt) {
        None => p,
        Some(step) => match summed(p.position, step) {
            None => p,
            Some(position) => Particle { handle: p.handle, position, velocity: p.velocity },
        },
    }
}

/// A store after every particle has moved.
pub open spec fn moved_all(particles: Seq<Particle>, dt: i64) -> Seq<Particle> {
    Seq::new(particles.len(), |i: int| moved(particles[i], dt))
}

/// A particle that does not move stays where it is.
pub proof fn lemma_rest_stays(p: Particle, dt: i64)
    requires
        p.velocity == (Vec2 { x: 0, y: 0 }),
    ensures
        moved(p, dt) == p,
{
    assert(0 * (dt as int) == 0) by (nonlinear_arith);
}

/// At the floor of the time step, a particle slower than one unit per unit
/// of time along both axes does not move at all.
pub proof fn lemma_floor_step_keeps_slow(p: Particle)
    requires
        -SCALE < p.velocity.x < SCALE,
        -SCALE < p.velocity.y < SCALE,
    ensures
        moved(p, clamp_dt(0)) == p,
{
    let vx = p.velocity.x as int;
    let vy = p.velocity.y as int;
    assert(vx * 1 == vx && vy * 1 == vy) by (nonlinear_arith);
    assert(magnitude(vx) / 1_000_000 == 0);
    assert(magnitude(vy) / 1_000_000 == 0);
    assert(mul_spec(vx, 1) == Some(0i64));
    assert(mul_spec(vy, 1) == Some(0i64));
}

/// At the floor of the time step, a particle slower than `delta + 1` units
/// per unit of time along both axes moves by at most `delta` raw units along
/// each axis.
pub proof fn lemma_floor_step_moves_little(p: Particle, delta: int)
    requires
        0 <= delta,
        -(delta + 1) * SCALE < p.velocity.x < (delta + 1) * SCALE,
        -(delta + 1) * SCALE < p.velocity.y < (delta + 1) * SCALE,
    ensures
        moved(p, clamp_dt(0)).handle == p.handle,
        -delta <= moved(p, clamp_dt(0)).position.x - p.position.x <= delta,
        -delta <= moved(p, clamp_dt(0)).position.y - p.position.y <= delta,
{
    let vx = p.velocity.x as int;
    let vy = p.velocity.y as int;
    assert(vx * 1 == vx && vy * 1 == vy) by (nonlinear_arith);
    let mx = magnitude(vx);
    let my = magnitude(vy);
    assert(0 <= mx / 1_000_000 <= delta) by (nonlinear_arith)
        requires
            0 <= mx < (delta + 1) * 1_000_000,
    ;
    assert(0 <= my / 1_000_000 <= delta) by (nonlinear_arith)
        requires
            0 <= my < (delta + 1) * 1_000_000,
    ;
}

/// A pressure acceleration that is not finite leaves the velocity as it was.
pub proof fn lemma_lost_acceleration_keeps_velocity(
    v: Vec2,
    force: Option<Vec2>,
    density: i64,
    dt: i64,
    params: Params,
)
    requires
        acceleration_spec(force, density).is_none(),
    ensures
        velocity_after(v, force, density, dt, params) == v,
{
}

/// A particle on which the pressure force is not finite is left as it is.
pub proof fn lemma_lost_force_keeps_particle(
    particles: Seq<Particle>,
    i: int,
    cache: Map<u64, i64>,
    dt: i64,
    params: Params,
)
    requires
        cache.contains_key(particles[i].handle),
        pressure_force_spec(
            particles,
            particles[i].position,
            floor_density(cache[particles[i].handle]),
            params,
        ).is_none(),
    ensures
        accelerated(particles, i, cache, dt, params) == particles[i],
{
}

/// Moving changes neither the handle nor the velocity of a particle.
pub proof fn lemma_moved_keeps_velocity(p: Particle, dt: i64)
    ensures
        moved(p, dt).handle == p.handle,
        moved(p, dt).velocity == p.velocity,
{
}

/// Advancing the velocities changes neither the handle nor the position of a particle.
pub proof fn lemma_accelerated_keeps_place(
    particles: Seq<Particle>,
    i: int,
    cache: Map<u64, i64>,
    dt: i64,
    params: Params,
)
    ensures
        accelerated(particles, i, cache, dt, params).handle == particles[i].handle,
        accelerated(particles, i, cache, dt, params).position == particles[i].position,
{
}

/// The time step for the given elapsed time.
pub fn time_step(elapsed: i64) -> (dt: i64)
    ensures
        dt == clamp_dt(elapsed),
        dt >= 1,
{
    if elapsed < 1 { 1 } else { elapsed }
}

/// A vector times a scalar.
pub fn scale(v: Vec2, factor: i64) -> (r: Option<Vec2>)
    ensures
        r == scaled(v, factor),
{
    match (fx_mul(v.x, factor), fx_mul(v.y, factor)) {
        (Some(x), Some(y)) => Some(Vec2 { x, y }),
        _ => None,
    }
}

/// The sum of two vectors.
pub fn sum(a: Vec2, b: Vec2) -> (r: Option<Vec2>)
    ensures
        r == summed(a, b),
{
    match (fx_add(a.x, b.x), fx_add(a.y, b.y)) {
        (Some(x), Some(y)) => Some(Vec2 { x, y }),
        _ => None,
    }
}

/// The velocity of a particle after a tick, given the pressure force on it
/// and the density at it.
pub fn integrate_velocity(v: Vec2, force: Option<Vec2>, density: i64, dt: i64, params: &Params) -> (r: Vec2)
    ensures
        r == velocity_after(v, force, density, dt, *params),
{
    let zero = Vec2 { x: 0, y: 0 };
    let acceleration = match force {
        None => None,
        Some(f) => match (fx_div(f.x, density), fx_div(f.y, density)) {
            (Some(x), Some(y)) => Some(Vec2 { x, y }),
            _ => None,
        },
    };
    let after_push = match acceleration {
        None => {
            return v;
        },
        Some(a) => match scale(a, dt) {
            None => None,
            Some(dv) => sum(v, dv),
        },
    };
    let after_fall = match after_push {
        None => None,
        Some(w) => match fx_mul(params.gravity, dt) {
            None => None,
            Some(g) => match fx_sub(w.y, g) {
                None => None,
                Some(y) => Some(Vec2 { x: w.x, y }),
            },
        },
    };
    let after_damping = match after_fall {
        None => None,
        Some(w) => scale(w, params.damping),
    };
    match after_damping {
        Some(w) => w,
        None => zero,
    }
}

/// Advances the velocity of every particle that has an entry in the cache.
/// The grid must register the store, in cells at least as wide as the
/// smoothing radius.
pub fn update_velocities(
    particles: &mut Vec<Particle>,
    grid: &SpatialGrid,
    cache: &DensityCache,
    elapsed: i64,
    params: &Params,
)
    requires
        params.valid(),
        grid.indexes(old(particles)@),
        grid.cell_size() >= params.smoothing_radius,
    ensures
        final(particles)@ == accelerated_all(
            old(particles)@,
            cache_entries(*cache),
            clamp_dt(elapsed),
            *params,
        ),
{
    let dt = time_step(elapsed);
    let n = particles.len();
    let ghost before = particles@;
    let mut i: usize = 0;
    while i < n
        invariant
            i <= n,
            n == before.len(),
            particles@.len() == n,
            params.valid(),
            grid.indexes(before),
            grid.cell_size() >= params.smoothing_radius,
            dt == clamp_dt(elapsed),
            forall|k: int|
                0 <= k < i ==> #[trigger] particles@[k] == accelerated(
                    before,
                    k,
                    cache_entries(*cache),
                    dt,
                    *params,
                ),
            forall|k: int| i <= k < n ==> #[trigger] particles@[k] == before[k],
        decreases n - i,
    {
        let p = particles[i];
        match cache.get(p.handle) {
            None => {},
            Some(density) => {
                let rho = if density < 1 { 1 } else { density };
                let force = calculate_pressure_force(grid, p.position, rho, params);
                proof {
                    lemma_grid_force(*grid, before, p.position, rho, *params);
                }
                let velocity = integrate_velocity(p.velocity, force, rho, dt, params);
                particles.set(i, Particle { handle: p.handle, position: p.position, velocity });
            },
        }
        i += 1;
    }
    assert(particles@ =~= accelerated_all(before, cache_entries(*cache), dt, *params));
}

/// Advances the velocity of every particle that has an entry in the cache.
pub fn velocity_system(particles: &mut Vec<Particle>, cache: &DensityCache, elapsed: i64, params: &Params)
    requires
        params.valid(),
    ensures
        final(particles)@ == accelerated_all(
            old(particles)@,
            cache_entries(*cache),
            clamp_dt(elapsed),
            *params,
        ),
{
    let grid = SpatialGrid::build(particles, params.smoothing_radius);
    update_velocities(particles, &grid, cache, elapsed, params);
}

/// Moves every particle with its velocity for the time step.
pub fn update_positions(particles: &mut Vec<Particle>, elapsed: i64)
    ensures
        final(particles)@ == moved_all(old(particles)@, clamp_dt(elapsed)),
{
    let dt = time_step(elapsed);
    let n = particles.len();
    let ghost before = particles@;
    let mut i: usize = 0;
    while i < n
        invariant
            i <= n,
            n == before.len(),
            particles@.len() == n,
            dt == clamp_dt(elapsed),
            forall|k: int| 0 <= k < i ==> #[trigger] particles@[k] == moved(before[k], dt),
            forall|k: int| i <= k < n ==> #[trigger] particles@[k] == before[k],
        decreases n - i,
    {
        let p = particles[i];
        match scale(p.velocity, dt) {
            None => {},
            Some(step) => match sum(p.position, step) {
                None => {},
                Some(position) => {
                    particles.set(i, Particle { handle: p.handle, position, velocity: p.velocity });
                },
            },
        }
        i += 1;
    }
    assert(particles@ =~= moved_all(before, dt));
}

} // verus!
