use sph_fluid::collision::{contact_kick, impulse, kick_along, resolve_collisions};
use sph_fluid::params::Params;
use sph_fluid::particle::Particle;
use sph_fluid::vec2::Vec2;

fn moving(handle: u64, x: i64, y: i64, vx: i64, vy: i64) -> Particle {
    Particle { handle, position: Vec2::new(x, y), velocity: Vec2::new(vx, vy) }
}

fn bouncy() -> Params {
    let mut params = Params::standard();
    params.restitution = 200_000;
    params
}

fn speed_along_x(a: &Particle, b: &Particle) -> i64 {
    b.velocity.x - a.velocity.x
}

#[test]
fn head_on_approach_out_of_reach() {
    let params = bouncy();
    let mut store = vec![moving(1, -1_500_000, 0, 2_000_000, 0), moving(2, 1_500_000, 0, -2_000_000, 0)];
    let before = store.clone();
    resolve_collisions(&mut store, &params);
    let dpa = store[0].velocity.x - before[0].velocity.x;
    let dpb = store[1].velocity.x - before[1].velocity.x;
    assert_eq!(dpa, -dpb);
    assert_eq!(store, before);
}

#[test]
fn head_on_approach_in_contact() {
    let params = bouncy();
    let mut store = vec![moving(1, -750_000, 0, 2_000_000, 0), moving(2, 750_000, 0, -2_000_000, 0)];
    let before = store.clone();
    resolve_collisions(&mut store, &params);
    assert_eq!(store[0], moving(1, -750_000, 0, -2_752_000, 0));
    assert_eq!(store[1], moving(2, 750_000, 0, 2_752_000, 0));
    assert!(speed_along_x(&before[0], &before[1]) < 0);
    assert!(speed_along_x(&store[0], &store[1]) >= 0);
    let dpa = store[0].velocity.x - before[0].velocity.x;
    let dpb = store[1].velocity.x - before[1].velocity.x;
    assert_eq!(dpa, -dpb);
    assert_eq!(store[0].velocity.y - before[0].velocity.y, -(store[1].velocity.y - before[1].velocity.y));
}

#[test]
fn kick_of_a_head_on_contact() {
    let params = bouncy();
    let a = moving(1, -750_000, 0, 2_000_000, 0);
    let b = moving(2, 750_000, 0, -2_000_000, 0);
    assert_eq!(contact_kick(&a, &b, &params), Vec2::new(4_752_000, 0));
    assert_eq!(contact_kick(&b, &a, &params), Vec2::new(-4_752_000, 0));
}

#[test]
fn impulse_and_kick_formulas() {
    let params = bouncy();
    assert_eq!(impulse(-4_000_000, &params), Some(240_000_000));
    assert_eq!(kick_along(240_000_000, 1_000_000, &params), Some(4_752_000));
    assert_eq!(kick_along(240_000_000, -600_000, &params), Some(-2_851_200));
    assert_eq!(impulse(i64::MIN as i128 - 1, &params), None);
    assert_eq!(impulse(i64::MIN as i128, &params), None);
}

#[test]
fn oblique_contact() {
    let params = Params::standard();
    let mut store = vec![moving(1, 0, 0, 1_000_000, 1_000_000), moving(2, 600_000, 800_000, -1_000_000, 0)];
    resolve_collisions(&mut store, &params);
    assert_eq!(store[0], moving(1, 0, 0, -199_880, -599_840));
    assert_eq!(store[1], moving(2, 600_000, 800_000, 199_880, 1_599_840));
}

#[test]
fn separating_particles_are_not_pulled() {
    let params = Params::standard();
    let mut store = vec![moving(1, -500_000, 0, -1_000_000, 0), moving(2, 500_000, 0, 1_000_000, 0)];
    let before = store.clone();
    resolve_collisions(&mut store, &params);
    assert_eq!(store, before);
}

#[test]
fn particles_at_rest_to_each_other_are_left_alone() {
    let params = Params::standard();
    let mut store = vec![moving(1, -500_000, 0, 3, 4), moving(2, 500_000, 0, 3, 4)];
    let before = store.clone();
    resolve_collisions(&mut store, &params);
    assert_eq!(store, before);
}

#[test]
fn coincident_particles_are_skipped() {
    let params = Params::standard();
    let mut store = vec![moving(1, 5, 5, 1_000_000, 0), moving(2, 5, 5, -1_000_000, 0)];
    let before = store.clone();
    resolve_collisions(&mut store, &params);
    assert_eq!(store, before);
}

#[test]
fn touching_cores_are_not_in_contact() {
    let params = Params::standard();
    let mut store = vec![moving(1, 0, 0, 1_000_000, 0), moving(2, 2_000_000, 0, -1_000_000, 0)];
    let before = store.clone();
    resolve_collisions(&mut store, &params);
    assert_eq!(store, before);
    let mut closer = vec![moving(1, 0, 0, 1_000_000, 0), moving(2, 1_999_999, 0, -1_000_000, 0)];
    resolve_collisions(&mut closer, &params);
    assert_ne!(closer[0].velocity, Vec2::new(1_000_000, 0));
}

#[test]
fn impulses_are_collected_before_they_are_applied() {
    let params = Params::standard();
    let mut store = vec![
        moving(1, 0, 0, 1_000_000, 0),
        moving(2, 1_000_000, 0, 0, 0),
        moving(3, 2_000_000, 0, -1_000_000, 0),
    ];
    resolve_collisions(&mut store, &params);
    assert_eq!(store[0].velocity, Vec2::new(100, 0));
    assert_eq!(store[1].velocity, Vec2::new(0, 0));
    assert_eq!(store[2].velocity, Vec2::new(-100, 0));
}

#[test]
fn momentum_of_a_crowd_is_conserved() {
    let params = Params::standard();
    let mut store = Vec::new();
    let mut seed: u64 = 7;
    for h in 0..60u64 {
        let mut next = || {
            seed = seed.wrapping_mul(6364136223846793005).wrapping_add(1442695040888963407);
            ((seed >> 33) % 8_000_000) as i64 - 4_000_000
        };
        store.push(moving(h, next(), next(), next(), next()));
    }
    let before = store.clone();
    resolve_collisions(&mut store, &params);
    let total = |s: &Vec<Particle>| s.iter().fold((0i128, 0i128), |t, p| (t.0 + p.velocity.x as i128, t.1 + p.velocity.y as i128));
    assert_eq!(total(&before), total(&store));
    assert_ne!(before, store);
    for (p, q) in before.iter().zip(store.iter()) {
        assert_eq!(p.position, q.position);
        assert_eq!(p.handle, q.handle);
    }
}

#[test]
fn a_kick_that_is_not_finite_is_discarded() {
    let params = Params::standard();
    let mut store = vec![moving(1, -500_000, 0, i64::MAX, 0), moving(2, 500_000, 0, i64::MIN, 0)];
    let before = store.clone();
    resolve_collisions(&mut store, &params);
    assert_eq!(store, before);
}

#[test]
fn an_empty_store_and_a_single_particle() {
    let params = Params::standard();
    let mut none: Vec<Particle> = Vec::new();
    resolve_collisions(&mut none, &params);
    assert!(none.is_empty());
    let mut one = vec![moving(1, 0, 0, 1, 2)];
    resolve_collisions(&mut one, &params);
    assert_eq!(one, vec![moving(1, 0, 0, 1, 2)]);
}
