use sph_fluid::density::{cache_densities, DensityCache};
use sph_fluid::grid::GridEntry;
use sph_fluid::kernel::{
    kernel_slope, kernel_weight, poly6_gap_of, poly6_kernel, poly6_kernel_derivative, poly6_volume_of,
    smoothing_kernel, smoothing_kernel_derivative, KernelShape,
};
use sph_fluid::params::Params;
use sph_fluid::particle::Particle;
use sph_fluid::pressure::pair_force;
use sph_fluid::sim::step;
use sph_fluid::vec2::Vec2;

fn moving(handle: u64, x: i64, y: i64, vx: i64, vy: i64) -> Particle {
    Particle { handle, position: Vec2::new(x, y), velocity: Vec2::new(vx, vy) }
}

fn poly6() -> Params {
    let mut params = Params::standard();
    params.kernel = KernelShape::Poly6;
    params
}

#[test]
fn the_standard_kernel_is_the_edge_kernel() {
    assert_eq!(Params::standard().kernel, KernelShape::Edge);
    assert!(poly6().is_valid());
}

#[test]
fn sixth_power_volume_and_gap() {
    assert_eq!(poly6_volume_of(5_000_000), 306_796_191_406);
    assert_eq!(poly6_volume_of(1_000_000), 785_398);
    assert_eq!(poly6_volume_of(1_000), 1);
    assert_eq!(poly6_gap_of(5_000_000, 3_000_000), 16_000_000);
    assert_eq!(poly6_gap_of(5_000_000, 5_000_000), 0);
    assert_eq!(poly6_gap_of(5_000_000, 7_000_000), 0);
    assert_eq!(poly6_gap_of(5_000_000, -7_000_000), 0);
}

#[test]
fn sixth_power_kernel_values() {
    assert_eq!(poly6_kernel(5_000_000, 0), 50_929);
    assert_eq!(poly6_kernel(5_000_000, 2_500_000), 21_485);
    assert_eq!(poly6_kernel(5_000_000, 3_000_000), 13_350);
    assert_eq!(poly6_kernel(1_000_000, 500_000), 537_148);
    assert_eq!(poly6_kernel(1_000, 0), 0);
}

#[test]
fn sixth_power_slope_values() {
    assert_eq!(poly6_kernel_derivative(5_000_000, 0), 0);
    assert_eq!(poly6_kernel_derivative(5_000_000, 2_500_000), -17_188);
    assert_eq!(poly6_kernel_derivative(5_000_000, 3_000_000), -15_019);
    assert_eq!(poly6_kernel_derivative(1_000_000, 500_000), -2_148_592);
}

#[test]
fn sixth_power_kernel_vanishes_from_the_edge_on() {
    assert_eq!(poly6_kernel(5_000_000, 4_999_999), 0);
    assert_eq!(poly6_kernel(5_000_000, 5_000_000), 0);
    assert_eq!(poly6_kernel(5_000_000, i64::MAX), 0);
    assert_eq!(poly6_kernel_derivative(5_000_000, 5_000_000), 0);
    assert_eq!(poly6_kernel_derivative(5_000_000, 8_000_000), 0);
}

#[test]
fn sixth_power_kernel_never_negative_and_never_rising() {
    let radius = 5_000_000;
    let mut last = poly6_kernel(radius, 0);
    let mut d = 0;
    while d <= 6_000_000 {
        let w = poly6_kernel(radius, d);
        assert!(w >= 0);
        assert!(w <= last);
        assert!(poly6_kernel_derivative(radius, d) <= 0);
        last = w;
        d += 12_500;
    }
}

#[test]
fn sixth_power_kernel_integrates_to_one_over_its_disk() {
    let radius: i64 = 5_000_000;
    let step: i64 = 1_000;
    let mut sum = 0.0f64;
    let mut d = step / 2;
    while d < radius {
        let w = poly6_kernel(radius, d) as f64 / 1e6;
        let r = d as f64 / 1e6;
        sum += w * 2.0 * std::f64::consts::PI * r * (step as f64 / 1e6);
        d += step;
    }
    assert!((sum - 1.0).abs() < 1e-3, "integral was {}", sum);
}

#[test]
fn sixth_power_slope_is_the_derivative_of_the_kernel() {
    let radius: i64 = 5_000_000;
    let h: i64 = 100_000;
    let mut d = h;
    while d < radius - h {
        let secant = (poly6_kernel(radius, d + h) - poly6_kernel(radius, d - h)) as f64 / (2.0 * h as f64 / 1e6);
        let slope = poly6_kernel_derivative(radius, d) as f64;
        assert!((secant - slope).abs() < 40.0, "at {}: {} against {}", d, secant, slope);
        d += 250_000;
    }
}

#[test]
fn the_shape_selects_the_kernel() {
    for d in [0, 1, 2_500_000, 4_999_999, 5_000_000, 9_000_000] {
        assert_eq!(kernel_weight(KernelShape::Edge, 5_000_000, d), smoothing_kernel(5_000_000, d));
        assert_eq!(kernel_weight(KernelShape::Poly6, 5_000_000, d), poly6_kernel(5_000_000, d));
        assert_eq!(kernel_slope(KernelShape::Edge, 5_000_000, d), smoothing_kernel_derivative(5_000_000, d));
        assert_eq!(kernel_slope(KernelShape::Poly6, 5_000_000, d), poly6_kernel_derivative(5_000_000, d));
    }
    assert_ne!(kernel_weight(KernelShape::Edge, 5_000_000, 0), kernel_weight(KernelShape::Poly6, 5_000_000, 0));
}

#[test]
fn densities_under_the_sixth_power_kernel() {
    let params = poly6();
    let store = vec![moving(1, 0, 0, 0, 0), moving(2, 3_000_000, 0, 0, 0), moving(3, 1_000_000, 2_000_000, 0, 0)];
    let mut cache = DensityCache::new();
    cache_densities(&store, &params, &mut cache);
    assert_eq!(cache.get(1), Some(4_517_700));
    assert_eq!(cache.get(2), Some(4_014_600));
    assert_eq!(cache.get(3), Some(4_650_850));
}

#[test]
fn force_under_the_sixth_power_kernel() {
    let params = poly6();
    let e = GridEntry { handle: 2, position: Vec2::new(3_000_000, 0) };
    assert_eq!(pair_force(Vec2::new(0, 0), &e, 4_517_700, &params), Some(Vec2::new(-1_660_737_731, 0)));
    let far = GridEntry { handle: 2, position: Vec2::new(5_000_000, 0) };
    assert_eq!(pair_force(Vec2::new(0, 0), &far, 4_517_700, &params), Some(Vec2::new(0, 0)));
}

#[test]
fn one_tick_under_the_sixth_power_kernel() {
    let params = poly6();
    let mut store = vec![moving(1, 0, 0, 0, 0), moving(2, 3_000_000, 0, 0, 0), moving(3, 1_000_000, 2_000_000, 0, 0)];
    let mut cache = DensityCache::new();
    step(&mut store, &mut cache, &params, 16_667);
    assert_eq!(store[0], moving(1, -153_751, -108_061, -9_224_921, -6_483_585));
    assert_eq!(store[1], moving(2, 3_224_397, -99_113, 13_463_601, -5_946_676));
    assert_eq!(store[2], moving(3, 977_891, 2_168_407, -1_326_526, 10_104_236));
}
