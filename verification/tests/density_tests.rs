use sph_fluid::density::{cache_densities, density_at, estimate_densities, DensityCache};
use sph_fluid::grid::SpatialGrid;
use sph_fluid::kernel::{sat_mul, smoothing_kernel};
use sph_fluid::params::Params;
use sph_fluid::particle::Particle;
use sph_fluid::setup::lattice;
use sph_fluid::vec2::{distance, Vec2};

fn at(handle: u64, x: i64, y: i64) -> Particle {
    Particle::at_rest(handle, Vec2::new(x, y))
}

#[test]
fn a_lone_particle_has_its_own_weight() {
    let params = Params::standard();
    let store = vec![at(1, 0, 0)];
    let grid = SpatialGrid::build(&store, params.smoothing_radius);
    assert_eq!(density_at(&grid, Vec2::new(0, 0), &params), 3_819_700);
}

#[test]
fn two_particles_three_units_apart() {
    let params = Params::standard();
    let store = vec![at(1, 0, 0), at(2, 3_000_000, 0)];
    let mut cache = DensityCache::new();
    cache_densities(&store, &params, &mut cache);
    assert_eq!(cache.get(1), Some(4_430_850));
    assert_eq!(cache.get(2), Some(4_430_850));
}

#[test]
fn nothing_from_the_edge_of_the_support_on() {
    let params = Params::standard();
    let store = vec![at(1, 0, 0), at(2, 5_000_000, 0), at(3, 0, -7_000_000)];
    let mut cache = DensityCache::new();
    cache_densities(&store, &params, &mut cache);
    assert_eq!(cache.get(1), Some(3_819_700));
    assert_eq!(cache.get(2), Some(3_819_700));
    assert_eq!(cache.get(3), Some(3_819_700));
}

#[test]
fn coincident_particles_both_count() {
    let params = Params::standard();
    let store = vec![at(1, 10, 10), at(2, 10, 10)];
    let mut cache = DensityCache::new();
    cache_densities(&store, &params, &mut cache);
    assert_eq!(cache.get(1), Some(7_639_400));
    assert_eq!(cache.get(2), Some(7_639_400));
}

#[test]
fn the_cache_is_cleared_before_it_is_filled() {
    let params = Params::standard();
    let mut cache = DensityCache::new();
    cache.insert(99, 123);
    assert_eq!(cache.get(99), Some(123));
    cache_densities(&vec![at(1, 0, 0)], &params, &mut cache);
    assert_eq!(cache.get(99), None);
    assert_eq!(cache.get(1), Some(3_819_700));
    cache.clear();
    assert_eq!(cache.get(1), None);
}

#[test]
fn insert_replaces_an_entry() {
    let mut cache = DensityCache::new();
    assert_eq!(cache.get(5), None);
    cache.insert(5, 1);
    cache.insert(5, 2);
    cache.insert(6, 3);
    assert_eq!(cache.get(5), Some(2));
    assert_eq!(cache.get(6), Some(3));
}

#[test]
fn an_empty_store_leaves_an_empty_cache() {
    let params = Params::standard();
    let mut cache = DensityCache::new();
    cache.insert(1, 1);
    cache_densities(&Vec::new(), &params, &mut cache);
    assert_eq!(cache.get(1), None);
}

#[test]
fn every_particle_has_a_density_that_is_not_negative() {
    let params = Params::standard();
    let store = lattice(10, 2_000_000).unwrap();
    let mut cache = DensityCache::new();
    cache_densities(&store, &params, &mut cache);
    for p in &store {
        let rho = cache.get(p.handle).expect("entry for every particle");
        assert!(rho >= 0);
    }
    assert_eq!(cache.get(0), Some(7_680_900));
    assert_eq!(cache.get(55), Some(13_153_300));
}

#[test]
fn the_grid_loses_no_neighbour() {
    let params = Params::standard();
    let mut store = Vec::new();
    let mut seed: u64 = 99;
    for h in 0..150u64 {
        seed = seed.wrapping_mul(6364136223846793005).wrapping_add(1442695040888963407);
        let x = ((seed >> 33) % 40_000_000) as i64 - 20_000_000;
        seed = seed.wrapping_mul(6364136223846793005).wrapping_add(1442695040888963407);
        let y = ((seed >> 33) % 40_000_000) as i64 - 20_000_000;
        store.push(at(h, x, y));
    }
    let grid = SpatialGrid::build(&store, params.smoothing_radius);
    let mut cache = DensityCache::new();
    estimate_densities(&grid, &store, &params, &mut cache);
    for p in &store {
        let mut sum: i64 = 0;
        for q in &store {
            if let Some(d) = distance(q.position, p.position) {
                if d < params.smoothing_radius {
                    sum += sat_mul(params.mass, smoothing_kernel(params.smoothing_radius, d));
                }
            }
        }
        assert_eq!(cache.get(p.handle), Some(sum));
        assert_eq!(density_at(&grid, p.position, &params), sum);
    }
}

#[test]
fn wider_cells_give_the_same_density() {
    let params = Params::standard();
    let store = lattice(6, 1_500_000).unwrap();
    let narrow = SpatialGrid::build(&store, params.smoothing_radius);
    let wide = SpatialGrid::build(&store, 25_000_000);
    for p in &store {
        assert_eq!(density_at(&narrow, p.position, &params), density_at(&wide, p.position, &params));
    }
}
