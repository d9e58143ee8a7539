//! The tick.
//!
//! One tick runs the stages in a fixed order, each on the finished result of
//! the one before: the grid is built, the densities are estimated, the
//! velocities and then the positions are advanced, the walls are enforced and
//! the contacts are resolved. A paused simulation does not run the stages at
//! all.

use vstd::prelude::*;
use crate::boundary::{bounded_all, contained, enforce_bounds};
use crate::collision::{collided_all, resolve_collisions};
use crate::density::{
    cache_entries, density_map, density_spec, estimate_densities, lemma_cached_density, DensityCache,
};
use crate::fixed::SCALE;
use crate::grid::SpatialGrid;
use crate::integrator::{
    accelerated_all, clamp_dt, lemma_floor_step_moves_little, moved_all, update_positions,
    update_velocities,
};
use crate::params::Params;
use crate::particle::{distinct_handles, Particle};
use crate::stability::{displaced_within, lemma_density_moves_little, near, spread};

verus! {

/// The cache that a tick leaves behind: the densities at the positions that
/// the particles had when the tick began.
pub open spec fn densities_of(particles: Seq<Particle>, params: Params) -> Map<u64, i64> {
    density_map(particles, particles.len() as int, params)
}

/// A store after one tick over the given elapsed time.
pub open spec fn stepped(particles: Seq<Particle>, params: Params, elapsed: i64) -> Seq<Particle> {
    let dt = clamp_dt(elapsed);
    collided_all(
        bounded_all(
            moved_all(accelerated_all(particles, densities_of(particles, params), dt, params), dt),
            params,
        ),
        params,
    )
}

/// A tick neither adds nor removes a particle, and never renames one.
pub proof fn lemma_step_keeps_handles(particles: Seq<Particle>, params: Params, elapsed: i64)
    ensures
        stepped(particles, params, elapsed).len() == particles.len(),
        forall|i: int|
            0 <= i < particles.len() ==> (#[trigger] stepped(particles, params, elapsed)[i]).handle
                == particles[i].handle,
{
}

/// After a tick every particle lies in the domain.
pub proof fn lemma_step_contains(particles: Seq<Particle>, params: Params, elapsed: i64)
    requires
        params.valid(),
    ensures
        forall|i: int|
            0 <= i < particles.len() ==> contained(#[trigger] stepped(particles, params, elapsed)[i], params),
{
}

/// Along both axes every particle is slower than `delta + 1` units per unit
/// of time.
pub open spec fn slower_than(particles: Seq<Particle>, delta: int) -> bool {
    forall|i: int|
        0 <= i < particles.len() ==> {
            &&& -(delta + 1) * SCALE < (#[trigger] particles[i]).velocity.x < (delta + 1) * SCALE
            &&& -(delta + 1) * SCALE < particles[i].velocity.y < (delta + 1) * SCALE
        }
}

/// The velocities with which the particles move in a tick at the floor of
/// the time step.
pub open spec fn floor_tick_velocities(particles: Seq<Particle>, params: Params) -> Seq<Particle> {
    accelerated_all(particles, densities_of(particles, params), clamp_dt(0), params)
}

/// A tick at the floor of the time step moves a particle of the domain by at
/// most `delta` raw units along each axis, where every particle is slower
/// than `delta + 1` units per unit of time.
pub proof fn lemma_floor_tick_displaces_little(particles: Seq<Particle>, params: Params, delta: int)
    requires
        params.valid(),
        0 <= delta,
        forall|i: int| 0 <= i < particles.len() ==> contained(#[trigger] particles[i], params),
        slower_than(floor_tick_velocities(particles, params), delta),
    ensures
        displaced_within(particles, stepped(particles, params, 0), delta),
{
    let fast = floor_tick_velocities(particles, params);
    let after = stepped(particles, params, 0);
    assert forall|i: int| 0 <= i < particles.len() implies (#[trigger] after[i]).handle
        == particles[i].handle && near(particles[i].position, after[i].position, delta) by {
        assert(contained(particles[i], params));
        assert(fast[i].position == particles[i].position);
        lemma_floor_step_moves_little(fast[i], delta);
    }
}

/// Between two ticks at the floor of the time step, the density at a
/// particle of the domain changes by no more than the spread of the store
/// over the distance that the particles can cover in the tick.
pub proof fn lemma_floor_tick_density(particles: Seq<Particle>, params: Params, delta: int, i: int)
    requires
        params.valid(),
        0 <= delta,
        0 <= i < particles.len(),
        forall|k: int| 0 <= k < particles.len() ==> contained(#[trigger] particles[k], params),
        slower_than(floor_tick_velocities(particles, params), delta),
    ensures
        density_spec(particles, particles[i].position, params) - spread(
            particles,
            particles[i].position,
            delta,
            params,
        ) <= density_spec(
            stepped(particles, params, 0),
            stepped(particles, params, 0)[i].position,
            params,
        ) <= density_spec(particles, particles[i].position, params) + spread(
            particles,
            particles[i].position,
            delta,
            params,
        ),
{
    let after = stepped(particles, params, 0);
    lemma_floor_tick_displaces_little(particles, params, delta);
    lemma_density_moves_little(particles, after, particles[i].position, after[i].position, delta, params);
}

/// The same of the caches of two successive ticks at the floor of the time
/// step, in a store without repeated handles.
pub proof fn lemma_floor_tick_cache(particles: Seq<Particle>, params: Params, delta: int, i: int)
    requires
        params.valid(),
        0 <= delta,
        0 <= i < particles.len(),
        distinct_handles(particles),
        forall|k: int| 0 <= k < particles.len() ==> contained(#[trigger] particles[k], params),
        slower_than(floor_tick_velocities(particles, params), delta),
    ensures
        densities_of(particles, params).contains_key(particles[i].handle),
        densities_of(stepped(particles, params, 0), params).contains_key(particles[i].handle),
        densities_of(particles, params)[particles[i].handle] - spread(
            particles,
            particles[i].position,
            delta,
            params,
        ) <= densities_of(stepped(particles, params, 0), params)[particles[i].handle] <= densities_of(
            particles,
            params,
        )[particles[i].handle] + spread(particles, particles[i].position, delta, params),
{
    let after = stepped(particles, params, 0);
    lemma_floor_tick_density(particles, params, delta, i);
    lemma_step_keeps_handles(particles, params, 0);
    assert(distinct_handles(after)) by {
        assert forall|a: int, b: int| 0 <= a < b < after.len() implies after[a].handle != after[b].handle by {
            assert(after[a].handle == particles[a].handle);
            assert(after[b].handle == particles[b].handle);
        }
    }
    lemma_cached_density(particles, particles.len() as int, i, params);
    lemma_cached_density(after, after.len() as int, i, params);
}

/// Whether the simulation is paused after a frame in which the pause key was
/// or was not pressed.
pub fn toggle_pause(paused: bool, pressed: bool) -> (r: bool)
    ensures
        r == (if pressed { !paused } else { paused }),
{
    if pressed { !paused } else { paused }
}

/// Runs one tick over the given elapsed time.
pub fn step(particles: &mut Vec<Particle>, cache: &mut DensityCache, params: &Params, elapsed: i64)
    requires
        params.valid(),
    ensures
        final(particles)@ == stepped(old(particles)@, *params, elapsed),
        cache_entries(*final(cache)) == densities_of(old(particles)@, *params),
{
    let grid = SpatialGrid::build(particles, params.smoothing_radius);
    estimate_densities(&grid, particles, params, cache);
    update_velocities(particles, &grid, cache, elapsed, params);
    update_positions(particles, elapsed);
    enforce_bounds(particles, params);
    resolve_collisions(particles, params);
}

/// Runs one tick unless the simulation is paused. A paused tick leaves the
/// store and the cache as they are.
pub fn tick(
    particles: &mut Vec<Particle>,
    cache: &mut DensityCache,
    params: &Params,
    elapsed: i64,
    paused: bool,
)
    requires
        params.valid(),
    ensures
        paused ==> final(particles)@ == old(particles)@ && cache_entries(*final(cache)) == cache_entries(
            *old(cache),
        ),
        !paused ==> final(particles)@ == stepped(old(particles)@, *params, elapsed) && cache_entries(
            *final(cache),
        ) == densities_of(old(particles)@, *params),
{
    if !paused {
        step(particles, cache, params, elapsed);
    }
}

} // verus!
