use sph_fluid::density::{cache_densities, DensityCache};
use sph_fluid::kernel::volume;
use sph_fluid::params::Params;
use sph_fluid::particle::Particle;
use sph_fluid::setup::{lattice, lattice_coordinates};
use sph_fluid::sim::{step, tick, toggle_pause};
use sph_fluid::vec2::Vec2;

fn moving(handle: u64, x: i64, y: i64, vx: i64, vy: i64) -> Particle {
    Particle { handle, position: Vec2::new(x, y), velocity: Vec2::new(vx, vy) }
}

#[test]
fn standard_parameters() {
    let p = Params::standard();
    assert!(p.is_valid());
    assert_eq!(p.mass, 50_000_000);
    assert_eq!(p.smoothing_radius, 5_000_000);
    assert_eq!(p.rest_density, 5_000_000_000);
    assert_eq!(p.stiffness, 2_000_000);
    assert_eq!(p.gravity, 10_000_000);
    assert_eq!(p.damping, 990_000);
    assert_eq!(p.restitution, 10_000);
    assert_eq!(p.half_width, 50_000_000);
    assert_eq!(p.half_height, 50_000_000);
    assert_eq!(p.particle_radius, 1_000_000);
    assert_eq!(Params::validated(p), Some(p));
}

#[test]
fn invalid_parameters_are_refused() {
    let good = Params::standard();
    let mut p = good;
    p.mass = 0;
    assert_eq!(Params::validated(p), None);
    p = good;
    p.smoothing_radius = 0;
    assert_eq!(Params::validated(p), None);
    p = good;
    p.damping = 0;
    assert_eq!(Params::validated(p), None);
    p.damping = 1_000_001;
    assert_eq!(Params::validated(p), None);
    p.damping = 1_000_000;
    assert_eq!(Params::validated(p), Some(p));
    p = good;
    p.restitution = -1;
    assert_eq!(Params::validated(p), None);
    p.restitution = 1_000_001;
    assert_eq!(Params::validated(p), None);
    p = good;
    p.half_width = -1;
    assert_eq!(Params::validated(p), None);
    p = good;
    p.half_height = -1;
    assert_eq!(Params::validated(p), None);
    p = good;
    p.particle_radius = -1;
    assert_eq!(Params::validated(p), None);
    p = good;
    p.gravity = -10_000_000;
    p.rest_density = -5;
    p.stiffness = -1;
    assert!(p.is_valid());
}

#[test]
fn lattice_of_ten_by_ten() {
    let store = lattice(10, 5_000_000).unwrap();
    assert_eq!(store.len(), 100);
    assert_eq!(store[0], moving(0, -22_500_000, -22_500_000, 0, 0));
    assert_eq!(store[9], moving(9, -22_500_000, 22_500_000, 0, 0));
    assert_eq!(store[55], moving(55, 2_500_000, 2_500_000, 0, 0));
    assert_eq!(store[99], moving(99, 22_500_000, 22_500_000, 0, 0));
    for (i, p) in store.iter().enumerate() {
        assert_eq!(p.handle, i as u64);
    }
}

#[test]
fn lattices_with_odd_and_negative_spacing() {
    let odd = lattice(3, 1_000_001).unwrap();
    assert_eq!(odd[0].position, Vec2::new(-1_000_001, -1_000_001));
    assert_eq!(odd[1].position, Vec2::new(-1_000_001, 0));
    assert_eq!(odd[2].position, Vec2::new(-1_000_001, 1_000_001));
    let negative = lattice(2, -3).unwrap();
    let places: Vec<Vec2> = negative.iter().map(|p| p.position).collect();
    assert_eq!(places, vec![Vec2::new(2, 2), Vec2::new(2, -1), Vec2::new(-1, 2), Vec2::new(-1, -1)]);
    assert_eq!(lattice_coordinates(2, -3), Some(vec![2, -1]));
}

#[test]
fn lattices_at_the_limits() {
    assert_eq!(lattice(0, 5_000_000), Some(Vec::new()));
    assert_eq!(lattice(0, i64::MAX), Some(Vec::new()));
    assert_eq!(lattice(1, i64::MAX).unwrap().len(), 1);
    assert!(lattice(2, i64::MAX).is_some());
    assert_eq!(lattice(4, i64::MAX), None);
    assert_eq!(lattice_coordinates(4, i64::MIN), None);
}

#[test]
fn pause_key() {
    assert!(toggle_pause(false, true));
    assert!(!toggle_pause(true, true));
    assert!(toggle_pause(true, false));
    assert!(!toggle_pause(false, false));
}

#[test]
fn one_tick_of_a_pair() {
    let params = Params::standard();
    let mut store = vec![moving(1, 0, 0, 0, 0), moving(2, 3_000_000, 0, 0, 0)];
    let mut cache = DensityCache::new();
    step(&mut store, &mut cache, &params, 16_667);
    assert_eq!(store[0], moving(1, -85_533, -2_750, -5_131_936, -165_003));
    assert_eq!(store[1], moving(2, 3_085_533, -2_750, 5_131_936, -165_003));
    assert_eq!(cache.get(1), Some(4_430_850));
    assert_eq!(cache.get(2), Some(4_430_850));
}

#[test]
fn one_tick_of_five() {
    let params = Params::standard();
    let mut store = vec![
        moving(1, 0, 0, 0, 0),
        moving(2, 3_000_000, 0, 0, 0),
        moving(3, 1_000_000, 2_000_000, 0, 0),
        moving(4, -4_000_000, -1_000_000, 0, 0),
        moving(5, 9_000_000, 9_000_000, 0, 0),
    ];
    let mut cache = DensityCache::new();
    step(&mut store, &mut cache, &params, 16_667);
    assert_eq!(store[0], moving(1, -61_292, -60_805, -3_677_493, -3_648_286));
    assert_eq!(store[1], moving(2, 3_111_847, -51_325, 6_710_693, -3_079_482));
    assert_eq!(store[2], moving(3, 992_284, 2_100_518, -462_989, 6_030_978));
    assert_eq!(store[3], moving(4, -4_046_082, -1_014_270, -2_764_875, -856_220));
    assert_eq!(store[4], moving(5, 9_000_000, 8_997_250, 0, -165_003));
    assert_eq!(cache.get(1), Some(5_715_500));
    assert_eq!(cache.get(2), Some(5_151_350));
    assert_eq!(cache.get(3), Some(5_707_400));
    assert_eq!(cache.get(4), Some(3_937_150));
    assert_eq!(cache.get(5), Some(3_819_700));
}

#[test]
fn a_paused_tick_changes_nothing() {
    let params = Params::standard();
    let mut store = vec![moving(1, 0, 0, 1, 1), moving(2, 3_000_000, 0, 0, 0)];
    let before = store.clone();
    let mut cache = DensityCache::new();
    cache.insert(77, 7);
    tick(&mut store, &mut cache, &params, 16_667, true);
    assert_eq!(store, before);
    assert_eq!(cache.get(77), Some(7));
    assert_eq!(cache.get(1), None);
    tick(&mut store, &mut cache, &params, 16_667, false);
    assert_ne!(store, before);
    assert_eq!(cache.get(77), None);
    assert_eq!(cache.get(1), Some(4_430_850));
}

#[test]
fn ticks_at_the_floor_of_the_time_step_inject_nothing() {
    let params = Params::standard();
    let mut store = lattice(10, 5_000_000).unwrap();
    let before = store.clone();
    let mut first = DensityCache::new();
    cache_densities(&store, &params, &mut first);
    let mut cache = DensityCache::new();
    for _ in 0..100 {
        step(&mut store, &mut cache, &params, 0);
    }
    for (p, q) in before.iter().zip(store.iter()) {
        assert!((p.position.x - q.position.x).abs() < 1_000);
        assert!((p.position.y - q.position.y).abs() < 1_000);
        assert_eq!(p.position, q.position);
        assert!((first.get(p.handle).unwrap() - cache.get(q.handle).unwrap()).abs() < 1_000);
        assert_eq!(q.velocity, Vec2::new(0, -597));
    }
}

#[test]
fn a_lattice_under_gravity_settles() {
    let params = Params::standard();
    let mut store = lattice(10, 5_000_000).unwrap();
    let mut cache = DensityCache::new();
    cache_densities(&store, &params, &mut cache);
    let initial: i64 = store.iter().map(|p| cache.get(p.handle).unwrap()).sum();
    assert_eq!(initial, 381_970_000);
    assert!(initial / 100 < params.rest_density);
    let mut densest: i64 = 0;
    for _ in 0..300 {
        step(&mut store, &mut cache, &params, 16_667);
        let mut total: i64 = 0;
        for p in &store {
            assert!(p.position.x.abs() <= params.half_width);
            assert!(p.position.y.abs() <= params.half_height);
            assert!(p.velocity.x.abs() < 20_000_000);
            assert!(p.velocity.y.abs() < 20_000_000);
            let rho = cache.get(p.handle).expect("entry for every particle");
            assert!(rho >= 3_819_700);
            total += rho;
        }
        assert!(total >= initial);
        densest = densest.max(total);
    }
    assert!(densest > initial);
    assert_eq!(store[0], moving(0, -22_500_000, -50_000_000, 0, 264_346));
    assert_eq!(store[55], moving(55, 2_500_000, -24_059_678, 0, 1_918_971));
}

#[test]
fn a_dense_lattice_stays_finite() {
    let params = Params::standard();
    let mut store = lattice(10, 2_000_000).unwrap();
    let mut cache = DensityCache::new();
    for _ in 0..5 {
        step(&mut store, &mut cache, &params, 16_667);
    }
    assert_eq!(store[0], moving(0, -10_333_970, -10_374_677, -26_546_341, -27_355_021));
    assert_eq!(store[55], moving(55, 1_000_309, 959_608, 13_959, -794_713));
    for _ in 0..195 {
        step(&mut store, &mut cache, &params, 16_667);
        for p in &store {
            assert!(p.position.x.abs() <= params.half_width);
            assert!(p.position.y.abs() <= params.half_height);
        }
    }
    assert_eq!(store[0], moving(0, -45_521_468, -22_249_534, -4_149_238, 3_164_102));
    assert_eq!(store[55], moving(55, 21_556_768, -9_866_257, 2_565_864, -11_723_606));
}

#[test]
fn densities_move_little_between_ticks_at_the_floor() {
    let params = Params::standard();
    let mut store = lattice(10, 2_000_000).unwrap();
    let mut cache = DensityCache::new();
    for _ in 0..3 {
        step(&mut store, &mut cache, &params, 16_667);
    }
    let before = store.clone();
    let mut first = DensityCache::new();
    cache_densities(&before, &params, &mut first);
    step(&mut store, &mut cache, &params, 0);
    let mut second = DensityCache::new();
    cache_densities(&store, &params, &mut second);
    let mut delta: i64 = 0;
    for (p, q) in before.iter().zip(store.iter()) {
        assert_eq!(p.handle, q.handle);
        delta = delta.max((p.position.x - q.position.x).abs()).max((p.position.y - q.position.y).abs());
    }
    assert!(delta > 0);
    assert!(delta < 100);
    let modulus = 2 * params.smoothing_radius * (8 * delta) / volume(params.smoothing_radius) + 1;
    let bound = params.mass * modulus / 1_000_000 + 1;
    for p in &before {
        let change = (second.get(p.handle).unwrap() - first.get(p.handle).unwrap()).abs();
        assert!(change <= before.len() as i64 * bound);
    }
}

#[test]
fn densities_stay_where_nothing_moves() {
    let params = Params::standard();
    let store = lattice(6, 1_500_000).unwrap();
    let mut thrown = store.clone();
    for p in thrown.iter_mut() {
        p.velocity = Vec2::new(p.handle as i64 * 1_000, -7);
    }
    let mut first = DensityCache::new();
    let mut second = DensityCache::new();
    cache_densities(&store, &params, &mut first);
    cache_densities(&thrown, &params, &mut second);
    for p in &store {
        assert_eq!(first.get(p.handle), second.get(p.handle));
    }
}
