//! Contacts between particles.
//!
//! Every particle has a rigid core. Two particles whose cores overlap and that
//! approach each other exchange an impulse along the line through their
//! centres. The impulses of all pairs are computed from the velocities at the
//! start of the pass and applied together afterwards, so the outcome does not
//! depend on the order in which the pairs are visited.

use vstd::prelude::*;
use crate::fixed::{
    checked, div_spec, fits, fx_div, fx_mul, lemma_product_bound, mul_spec, narrow, quot,
    wide_quot, SCALE,
};
use crate::params::Params;
use crate::particle::Particle;
use crate::vec2::{distance, distance_spec, unit_component, unit_vector, Vec2};

verus! {

/// Speed at which `b` moves away from `a` along the unit vector `(nx, ny)`;
/// negative while the two approach.
pub open spec fn normal_speed(a: Particle, b: Particle, nx: int, ny: int) -> int {
    quot(
        (b.velocity.x - a.velocity.x) * nx + (b.velocity.y - a.velocity.y) * ny,
        SCALE as int,
    )
}

/// Magnitude of the impulse that answers an approach at `speed`:
/// `-(1 + restitution) * speed * mass`.
pub open spec fn impulse_spec(speed: int, params: Params) -> Option<i64> {
    match checked(speed) {
        None => None,
        Some(v) => match mul_spec(-(SCALE + params.restitution), v as int) {
            None => None,
            Some(j) => mul_spec(j as int, params.mass as int),
        },
    }
}

/// One coordinate of the change of velocity that an impulse along the unit
/// vector causes: `impulse * n / mass * damping`.
pub open spec fn kick_component(impulse: i64, n: int, params: Params) -> Option<i64> {
    match mul_spec(impulse as int, n) {
        None => None,
        Some(t) => match div_spec(t as int, params.mass as int) {
            None => None,
            Some(u) => mul_spec(u as int, params.damping as int),
        },
    }
}

/// The cores of two particles at finite distance `d` overlap without coinciding.
pub open spec fn in_contact(d: int, params: Params) -> bool {
    0 < d < 2 * params.particle_radius
}

/// Change of the velocity of `b` due to its contact with `a`; the velocity of
/// `a` changes by the opposite amount. Null when the two are not in contact,
/// when they coincide, when they separate, or when a step of the computation
/// is not finite.
pub open spec fn contact_kick_spec(a: Particle, b: Particle, params: Params) -> Vec2 {
    match distance_spec(a.position, b.position) {
        None => Vec2 { x: 0, y: 0 },
        Some(d) => {
            let nx = unit_component(b.position.x - a.position.x, d as int);
            let ny = unit_component(b.position.y - a.position.y, d as int);
            let speed = normal_speed(a, b, nx, ny);
            if !in_contact(d as int, params) || speed >= 0 {
                Vec2 { x: 0, y: 0 }
            } else {
                match impulse_spec(speed, params) {
                    None => Vec2 { x: 0, y: 0 },
                    Some(j) => match (
                        kick_component(j, nx, params),
                        kick_component(j, ny, params),
                    ) {
                        (Some(kx), Some(ky)) => Vec2 { x: kx, y: ky },
                        _ => Vec2 { x: 0, y: 0 },
                    },
                }
            }
        },
    }
}

/// Change of the velocity of particle `k` due to its contact with particle `j`.
pub open spec fn signed_kick(particles: Seq<Particle>, k: int, j: int, params: Params) -> (int, int) {
    if k < j {
        let c = contact_kick_spec(particles[k], particles[j], params);
        (-c.x, -c.y)
    } else if j < k {
        let c = contact_kick_spec(particles[j], particles[k], params);
        (c.x as int, c.y as int)
    } else {
        (0, 0)
    }
}

/// Sum of the changes of the velocity of particle `k` due to its contacts
/// with the particles below index `upto`.
pub open spec fn net_kick(particles: Seq<Particle>, k: int, upto: int, params: Params) -> (int, int)
    decreases upto,
{
    if upto <= 0 {
        (0, 0)
    } else {
        let rest = net_kick(particles, k, upto - 1, params);
        let one = signed_kick(particles, k, upto - 1, params);
        (rest.0 + one.0, rest.1 + one.1)
    }
}

/// A particle after it has received the sum of its kicks. A sum that would
/// take the velocity out of the finite range is discarded.
pub open spec fn kicked(p: Particle, kick: (int, int)) -> Particle {
    if fits(p.velocity.x + kick.0) && fits(p.velocity.y + kick.1) {
        Particle {
            handle: p.handle,
            position: p.position,
            velocity: Vec2 { x: (p.velocity.x + kick.0) as i64, y: (p.velocity.y + kick.1) as i64 },
        }
    } else {
        p
    }
}

/// Particle `k` after all contacts of the store have been resolved.
pub open spec fn collided(particles: Seq<Particle>, k: int, params: Params) -> Particle {
    kicked(particles[k], net_kick(particles, k, particles.len() as int, params))
}

/// A store after all its contacts have been resolved.
pub open spec fn collided_all(particles: Seq<Particle>, params: Params) -> Seq<Particle> {
    Seq::new(particles.len(), |k: int| collided(particles, k, params))
}

/// The two partners of a contact receive opposite changes of velocity, so the
/// momentum of the pair is conserved.
pub proof fn lemma_kicks_cancel(particles: Seq<Particle>, i: int, j: int, params: Params)
    ensures
        signed_kick(particles, i, j, params).0 == -signed_kick(particles, j, i, params).0,
        signed_kick(particles, i, j, params).1 == -signed_kick(particles, j, i, params).1,
{
}

/// Resolving the contacts changes neither the handle nor the position of a particle.
pub proof fn lemma_collided_keeps_place(particles: Seq<Particle>, k: int, params: Params)
    ensures
        collided(particles, k, params).handle == particles[k].handle,
        collided(particles, k, params).position == particles[k].position,
{
}

/// Without a partner in contact, a particle keeps its velocity.
pub proof fn lemma_no_contact_no_kick(particles: Seq<Particle>, k: int, upto: int, params: Params)
    requires
        forall|j: int| 0 <= j < upto ==> #[trigger] signed_kick(particles, k, j, params) == (0int, 0int),
    ensures
        net_kick(particles, k, upto, params) == (0int, 0int),
    decreases upto,
{
    if upto > 0 {
        lemma_no_contact_no_kick(particles, k, upto - 1, params);
    }
}

/// A sum of kicks grows at most linearly with the number of partners.
pub proof fn lemma_net_kick_bound(particles: Seq<Particle>, k: int, upto: int, params: Params)
    requires
        0 <= upto,
    ensures
        -(upto * 0x8000_0000_0000_0000) <= net_kick(particles, k, upto, params).0 <= upto
            * 0x8000_0000_0000_0000,
        -(upto * 0x8000_0000_0000_0000) <= net_kick(particles, k, upto, params).1 <= upto
            * 0x8000_0000_0000_0000,
    decreases upto,
{
    if upto > 0 {
        lemma_net_kick_bound(particles, k, upto - 1, params);
    }
}

/// Magnitude of the impulse that answers an approach at `speed`.
pub fn impulse(speed: i128, params: &Params) -> (r: Option<i64>)
    requires
        params.valid(),
    ensures
        r == impulse_spec(speed as int, *params),
{
    match narrow(speed) {
        None => None,
        Some(v) => match fx_mul(-(SCALE + params.restitution), v) {
            None => None,
            Some(j) => fx_mul(j, params.mass),
        },
    }
}

/// One coordinate of the change of velocity that an impulse causes.
pub fn kick_along(impulse: i64, n: i64, params: &Params) -> (r: Option<i64>)
    ensures
        r == kick_component(impulse, n as int, *params),
{
    match fx_mul(impulse, n) {
        None => None,
        Some(t) => match fx_div(t, params.mass) {
            None => None,
            Some(u) => fx_mul(u, params.damping),
        },
    }
}

/// Change of the velocity of `b` due to its contact with `a`.
pub fn contact_kick(a: &Particle, b: &Particle, params: &Params) -> (k: Vec2)
    requires
        params.valid(),
    ensures
        k == contact_kick_spec(*a, *b, *params),
{
    let zero = Vec2 { x: 0, y: 0 };
    match distance(a.position, b.position) {
        None => zero,
        Some(d) => {
            if d == 0 || (d as i128) >= 2 * (params.particle_radius as i128) {
                return zero;
            }
            let n = unit_vector(a.position, b.position, d);
            let nx: i128 = n.x as i128;
            let ny: i128 = n.y as i128;
            let rx: i128 = b.velocity.x as i128 - a.velocity.x as i128;
            let ry: i128 = b.velocity.y as i128 - a.velocity.y as i128;
            proof {
                lemma_product_bound(rx as int, nx as int, 0x1_0000_0000_0000_0000, 1_000_000);
                lemma_product_bound(ry as int, ny as int, 0x1_0000_0000_0000_0000, 1_000_000);
            }
            let speed: i128 = wide_quot(rx * nx + ry * ny, 1_000_000);
            if speed >= 0 {
                return zero;
            }
            match impulse(speed, params) {
                None => zero,
                Some(j) => match (kick_along(j, n.x, params), kick_along(j, n.y, params)) {
                    (Some(kx), Some(ky)) => Vec2 { x: kx, y: ky },
                    _ => zero,
                },
            }
        },
    }
}

/// How far the scan has summed the kicks of particle `k` when the pair
/// `(i, j)` is next: over all partners for a particle before `i`, over the
/// partners below `j` for particle `i`, and over the partners up to `i` or
/// below `i` for a particle behind `i`, as `j` has passed it or not.
pub open spec fn reach(k: int, i: int, j: int, n: int) -> int {
    if k < i {
        n
    } else if k == i {
        j
    } else if k < j {
        i + 1
    } else {
        i
    }
}

/// Gives every particle the kicks of all its contacts. The kicks are computed
/// from the velocities that the particles had before the call; positions and
/// handles do not change.
pub fn resolve_collisions(particles: &mut Vec<Particle>, params: &Params)
    requires
        params.valid(),
    ensures
        final(particles)@ == collided_all(old(particles)@, *params),
{
    let n = particles.len();
    let ghost before = particles@;
    let mut kx: Vec<i128> = Vec::new();
    let mut ky: Vec<i128> = Vec::new();
    let mut t: usize = 0;
    while t < n
        invariant
            t <= n,
            kx@.len() == t,
            ky@.len() == t,
            forall|k: int| 0 <= k < t ==> kx@[k] == 0 && ky@[k] == 0,
        decreases n - t,
    {
        kx.push(0);
        ky.push(0);
        t += 1;
    }
    let mut i: usize = 0;
    while i < n
        invariant
            i <= n,
            n == before.len(),
            particles@ == before,
            kx@.len() == n,
            ky@.len() == n,
            params.valid(),
            forall|k: int|
                0 <= k < n ==> kx@[k] == net_kick(before, k, reach(k, i as int, i as int, n as int), *params).0
                    && ky@[k] == net_kick(before, k, reach(k, i as int, i as int, n as int), *params).1,
        decreases n - i,
    {
        let mut j: usize = i + 1;
        assert(signed_kick(before, i as int, i as int, *params) == (0int, 0int));
        assert(net_kick(before, i as int, i + 1, *params) == net_kick(before, i as int, i as int, *params));
        while j < n
            invariant
                i < j <= n,
                n == before.len(),
                particles@ == before,
                kx@.len() == n,
                ky@.len() == n,
                params.valid(),
                forall|k: int|
                    0 <= k < n ==> kx@[k] == net_kick(before, k, reach(k, i as int, j as int, n as int), *params).0
                        && ky@[k] == net_kick(before, k, reach(k, i as int, j as int, n as int), *params).1,
            decreases n - j,
        {
            let a = particles[i];
            let b = particles[j];
            let c = contact_kick(&a, &b, params);
            proof {
                lemma_net_kick_bound(before, i as int, j as int, *params);
                lemma_net_kick_bound(before, j as int, i as int, *params);
                lemma_span_bound(j + 1, n as int);
                lemma_span_bound(i + 1, n as int);
                assert(signed_kick(before, i as int, j as int, *params) == (-c.x, -c.y));
                assert(signed_kick(before, j as int, i as int, *params) == (c.x as int, c.y as int));
                assert(reach(i as int, i as int, j + 1, n as int) == j + 1);
                assert(reach(j as int, i as int, j + 1, n as int) == i + 1);
                assert(reach(j as int, i as int, j as int, n as int) == i);
            }
            let xi = kx[i] - c.x as i128;
            let yi = ky[i] - c.y as i128;
            let xj = kx[j] + c.x as i128;
            let yj = ky[j] + c.y as i128;
            kx.set(i, xi);
            ky.set(i, yi);
            kx.set(j, xj);
            ky.set(j, yj);
            proof {
                assert forall|k: int| 0 <= k < n implies kx@[k] == net_kick(
                    before,
                    k,
                    reach(k, i as int, j + 1, n as int),
                    *params,
                ).0 && ky@[k] == net_kick(before, k, reach(k, i as int, j + 1, n as int), *params).1 by {
                    if k != i && k != j {
                        assert(reach(k, i as int, j + 1, n as int) == reach(k, i as int, j as int, n as int));
                    }
                }
            }
            j += 1;
        }
        proof {
            assert forall|k: int| 0 <= k < n implies kx@[k] == net_kick(
                before,
                k,
                reach(k, i + 1, i + 1, n as int),
                *params,
            ).0 && ky@[k] == net_kick(before, k, reach(k, i + 1, i + 1, n as int), *params).1 by {
                assert(reach(k, i + 1, i + 1, n as int) == reach(k, i as int, n as int, n as int));
            }
        }
        i += 1;
    }
    let mut m: usize = 0;
    while m < n
        invariant
            m <= n,
            n == before.len(),
            particles@.len() == n,
            kx@.len() == n,
            ky@.len() == n,
            forall|k: int|
                0 <= k < n ==> kx@[k] == net_kick(before, k, n as int, *params).0 && ky@[k] == net_kick(
                    before,
                    k,
                    n as int,
                    *params,
                ).1,
            forall|k: int| 0 <= k < m ==> #[trigger] particles@[k] == collided(before, k, *params),
            forall|k: int| m <= k < n ==> #[trigger] particles@[k] == before[k],
        decreases n - m,
    {
        let p = particles[m];
        proof {
            lemma_net_kick_bound(before, m as int, n as int, *params);
            lemma_span_bound(n as int, n as int);
        }
        let vx = narrow(p.velocity.x as i128 + kx[m]);
        let vy = narrow(p.velocity.y as i128 + ky[m]);
        match (vx, vy) {
            (Some(x), Some(y)) => {
                particles.set(m, Particle { handle: p.handle, position: p.position, velocity: Vec2 { x, y } });
            },
            _ => {},
        }
        m += 1;
    }
    assert(particles@ =~= collided_all(before, *params));
}

/// A count of partners times the largest magnitude of a kick stays far inside 128 bits.
pub proof fn lemma_span_bound(count: int, n: int)
    by (nonlinear_arith)
    requires
        0 <= count <= n <= 0xFFFF_FFFF_FFFF_FFFF,
    ensures
        count * 0x8000_0000_0000_0000 <= 0x7FFF_FFFF_FFFF_FFFF_8000_0000_0000_0000,
{
}

} // verus!
