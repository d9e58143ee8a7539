//! The density field.
//!
//! The density at a point is the sum, over every particle closer than the
//! smoothing radius, of the mass weighted by the kernel. The densities at all
//! particles are computed in one pass and cached for the pass that computes
//! the forces.

use vstd::prelude::*;
use bevy::utils::HashMap;
use crate::fixed::saturated;
use crate::grid::{cell_of, entry_of, hash_position, in_block, GridEntry, SpatialGrid};
use crate::kernel::{kernel_weight, lemma_weight_nonneg, sat_mul, sat_mul_spec, weight_spec};
use crate::params::Params;
use crate::particle::{distinct_handles, Particle};
use crate::sums::{lemma_near_in_block, lemma_neighbor_sum, lemma_sum_take, sum_over, total};
use crate::vec2::{closer_than, distance, distance_spec, Vec2};

verus! {

/// What the particle behind an entry adds to the density at `point`.
pub open spec fn density_term(point: Vec2, e: GridEntry, params: Params) -> int {
    match distance_spec(e.position, point) {
        Some(d) => if d < params.smoothing_radius {
            sat_mul_spec(
                params.mass as int,
                weight_spec(params.kernel, params.smoothing_radius as int, d as int) as int,
            ) as int
        } else {
            0
        },
        None => 0,
    }
}

/// The contribution to the density at `point`, as a function of the entry.
pub open spec fn density_weight(point: Vec2, params: Params) -> spec_fn(GridEntry) -> int {
    |e: GridEntry| density_term(point, e, params)
}

/// The density at `point` due to a sequence of entries.
pub open spec fn neighbor_density(entries: Seq<GridEntry>, point: Vec2, params: Params) -> i64 {
    saturated(sum_over(entries, density_weight(point, params)))
}

/// The density at `point` due to all particles of a store.
pub open spec fn density_spec(particles: Seq<Particle>, point: Vec2, params: Params) -> i64 {
    saturated(total(particles, density_weight(point, params)))
}

/// The cache after the densities at the first `k` particles of a store have
/// been entered, each under the handle of its particle.
pub open spec fn density_map(particles: Seq<Particle>, k: int, params: Params) -> Map<u64, i64>
    decreases k,
{
    if k <= 0 {
        Map::empty()
    } else {
        density_map(particles, k - 1, params).insert(
            particles[k - 1].handle,
            density_spec(particles, particles[k - 1].position, params),
        )
    }
}

/// No contribution to a density is negative.
pub proof fn lemma_density_term_nonneg(point: Vec2, e: GridEntry, params: Params)
    requires
        params.valid(),
    ensures
        0 <= density_term(point, e, params) <= i64::MAX,
{
    match distance_spec(e.position, point) {
        Some(d) => {
            let w = weight_spec(params.kernel, params.smoothing_radius as int, d as int);
            lemma_weight_nonneg(params.kernel, params.smoothing_radius as int, d as int);
            let m = params.mass;
            assert(m * w >= 0) by (nonlinear_arith)
                requires
                    m > 0,
                    w >= 0,
            ;
        },
        None => {},
    }
}

/// The density due to a store is not negative.
pub proof fn lemma_density_total_nonneg(particles: Seq<Particle>, point: Vec2, params: Params)
    requires
        params.valid(),
    ensures
        0 <= total(particles, density_weight(point, params)),
        0 <= density_spec(particles, point, params),
    decreases particles.len(),
{
    if particles.len() > 0 {
        lemma_density_total_nonneg(particles.drop_last(), point, params);
        lemma_density_term_nonneg(point, entry_of(particles.last()), params);
    }
}

/// The density that the grid yields is the density due to the whole store,
/// as long as the cells are at least as wide as the smoothing radius.
pub proof fn lemma_grid_density(grid: SpatialGrid, particles: Seq<Particle>, point: Vec2, params: Params)
    requires
        params.valid(),
        grid.indexes(particles),
        grid.cell_size() >= params.smoothing_radius,
    ensures
        neighbor_density(grid.block(cell_of(point, grid.cell_size())), point, params) == density_spec(
            particles,
            point,
            params,
        ),
{
    let f = density_weight(point, params);
    let center = cell_of(point, grid.cell_size());
    assert forall|j: int|
        0 <= j < particles.len() && !in_block(
            cell_of((#[trigger] particles[j]).position, grid.cell_size()),
            center,
        ) implies f(entry_of(particles[j])) == 0 by {
        let q = particles[j].position;
        if closer_than(q, point, params.smoothing_radius as int) {
            lemma_near_in_block(point, q, grid.cell_size(), params.smoothing_radius as int);
        }
    }
    lemma_neighbor_sum(grid, particles, center, f);
}

/// After the estimator has run, every particle of the store has an entry in
/// the cache, and no entry is negative.
pub proof fn lemma_every_particle_cached(particles: Seq<Particle>, k: int, params: Params)
    requires
        params.valid(),
        0 <= k <= particles.len(),
    ensures
        forall|i: int|
            0 <= i < k ==> density_map(particles, k, params).contains_key(
                (#[trigger] particles[i]).handle,
            ) && density_map(particles, k, params)[particles[i].handle] >= 0,
    decreases k,
{
    if k > 0 {
        lemma_every_particle_cached(particles, k - 1, params);
        lemma_density_total_nonneg(particles, particles[k - 1].position, params);
    }
}

/// In a store without repeated handles, the entry of a particle is the
/// density at its own position.
pub proof fn lemma_cached_density(particles: Seq<Particle>, k: int, i: int, params: Params)
    requires
        distinct_handles(particles),
        0 <= i < k <= particles.len(),
    ensures
        density_map(particles, k, params).contains_key(particles[i].handle),
        density_map(particles, k, params)[particles[i].handle] == density_spec(
            particles,
            particles[i].position,
            params,
        ),
    decreases k,
{
    if i < k - 1 {
        lemma_cached_density(particles, k - 1, i, params);
    }
}

/// The densities of one tick, keyed by the handle of the particle, in a
/// `bevy::utils::HashMap` (hashbrown's map with a fixed hasher). Nothing is
/// proved of the map; the functions below state what its methods are taken
/// to do.
#[verifier::external_body]
pub struct DensityCache {
    densities: HashMap<u64, i64>,
}

/// What a cache holds.
pub uninterp spec fn cache_entries(c: DensityCache) -> Map<u64, i64>;

/// `HashMap::new` of hashbrown: the new map holds no key.
#[verifier::external_body]
fn cache_new() -> (c: DensityCache)
    ensures
        cache_entries(c) == (Map::<u64, i64>::empty()),
{
    DensityCache { densities: HashMap::new() }
}

/// `HashMap::clear` of hashbrown: no key is left.
#[verifier::external_body]
fn cache_clear(c: &mut DensityCache)
    ensures
        cache_entries(*final(c)) == (Map::<u64, i64>::empty()),
{
    c.densities.clear();
}

/// `HashMap::insert` of hashbrown: the key now maps to the value, whether or
/// not it was present; no other key is touched.
#[verifier::external_body]
fn cache_insert(c: &mut DensityCache, handle: u64, density: i64)
    ensures
        cache_entries(*final(c)) == cache_entries(*old(c)).insert(handle, density),
{
    c.densities.insert(handle, density);
}

/// `HashMap::get` of hashbrown: the value stored under the key, if any.
#[verifier::external_body]
fn cache_get(c: &DensityCache, handle: u64) -> (r: Option<i64>)
    ensures
        r == (if cache_entries(*c).contains_key(handle) {
            Some(cache_entries(*c)[handle])
        } else {
            None
        }),
{
    c.densities.get(&handle).copied()
}

impl DensityCache {
    /// A cache without entries.
    pub fn new() -> (c: DensityCache)
        ensures
            cache_entries(c) == (Map::<u64, i64>::empty()),
    {
        cache_new()
    }

    /// The density cached for a particle, or `None` when the cache has no
    /// entry for it.
    pub fn get(&self, handle: u64) -> (r: Option<i64>)
        ensures
            r == (if cache_entries(*self).contains_key(handle) {
                Some(cache_entries(*self)[handle])
            } else {
                None
            }),
    {
        cache_get(self, handle)
    }

    /// Enters a density for a particle, in place of an earlier one if there is one.
    pub fn insert(&mut self, handle: u64, density: i64)
        ensures
            cache_entries(*final(self)) == cache_entries(*old(self)).insert(handle, density),
    {
        cache_insert(self, handle, density);
    }

    /// Drops every entry.
    pub fn clear(&mut self)
        ensures
            cache_entries(*final(self)) == (Map::<u64, i64>::empty()),
    {
        cache_clear(self);
    }
}

/// The density at `point` due to the entries that the grid holds in the block
/// of cells around it.
pub fn density_at(grid: &SpatialGrid, point: Vec2, params: &Params) -> (rho: i64)
    requires
        params.valid(),
    ensures
        rho == neighbor_density(grid.block(cell_of(point, grid.cell_size())), point, *params),
        rho >= 0,
{
    let cell = hash_position(point, grid.width());
    let near = grid.neighbors(cell);
    let ghost f = density_weight(point, *params);
    let mut rho: i64 = 0;
    let mut k: usize = 0;
    while k < near.len()
        invariant
            k <= near@.len(),
            params.valid(),
            f == density_weight(point, *params),
            0 <= sum_over(near@.take(k as int), f),
            rho == saturated(sum_over(near@.take(k as int), f)),
        decreases near@.len() - k,
    {
        proof {
            lemma_sum_take(near@, k as int, f);
            lemma_density_term_nonneg(point, near@[k as int], *params);
        }
        let e = near[k];
        match distance(e.position, point) {
            Some(d) => {
                if d < params.smoothing_radius {
                    let term = sat_mul(params.mass, kernel_weight(params.kernel, params.smoothing_radius, d));
                    rho = if rho > i64::MAX - term { i64::MAX } else { rho + term };
                }
            },
            None => {},
        }
        k += 1;
    }
    assert(near@.take(k as int) == near@);
    rho
}

/// Clears the cache and enters the density at every particle of the store.
/// The grid must register the store, in cells at least as wide as the
/// smoothing radius.
pub fn estimate_densities(
    grid: &SpatialGrid,
    particles: &Vec<Particle>,
    params: &Params,
    cache: &mut DensityCache,
)
    requires
        params.valid(),
        grid.indexes(particles@),
        grid.cell_size() >= params.smoothing_radius,
    ensures
        cache_entries(*final(cache)) == density_map(particles@, particles@.len() as int, *params),
{
    cache.clear();
    let mut k: usize = 0;
    while k < particles.len()
        invariant
            k <= particles@.len(),
            params.valid(),
            grid.indexes(particles@),
            grid.cell_size() >= params.smoothing_radius,
            cache_entries(*cache) == density_map(particles@, k as int, *params),
        decreases particles@.len() - k,
    {
        let p = particles[k];
        let rho = density_at(grid, p.position, params);
        proof {
            lemma_grid_density(*grid, particles@, p.position, *params);
        }
        cache.insert(p.handle, rho);
        k += 1;
    }
}

/// Clears the cache and enters the density at every particle of the store.
pub fn cache_densities(particles: &Vec<Particle>, params: &Params, cache: &mut DensityCache)
    requires
        params.valid(),
    ensures
        cache_entries(*final(cache)) == density_map(particles@, particles@.len() as int, *params),
{
    let grid = SpatialGrid::build(particles, params.smoothing_radius);
    estimate_densities(&grid, particles, params, cache);
}

} // verus!
