//! The walls of the domain.
//!
//! The domain is the rectangle `[-half_width, half_width]` by
//! `[-half_height, half_height]`. A particle found outside along an axis is
//! put back on the wall, and its velocity along that axis is turned round and
//! damped.

use vstd::prelude::*;
use crate::fixed::SCALE;
use crate::kernel::{sat_mul, sat_mul_spec};
use crate::params::Params;
use crate::particle::Particle;
use crate::vec2::Vec2;

verus! {

/// The coordinate lies beyond one of the two walls at distance `half` from the origin.
pub open spec fn outside(position: i64, half: i64) -> bool {
    position < -half || position > half
}

/// The coordinate, put back on the nearer wall if it lies outside.
pub open spec fn clamped(position: i64, half: i64) -> i64 {
    if position < -half {
        (-half) as i64
    } else if position > half {
        half
    } else {
        position
    }
}

/// The velocity after a reflection: `velocity * -damping`.
pub open spec fn reflected(velocity: i64, damping: i64) -> i64 {
    sat_mul_spec(velocity as int, -damping)
}

/// The velocity along an axis after the walls of that axis have been enforced.
pub open spec fn bounced(position: i64, velocity: i64, half: i64, damping: i64) -> i64 {
    if outside(position, half) { reflected(velocity, damping) } else { velocity }
}

/// A particle after the walls have been enforced.
pub open spec fn bounded(p: Particle, params: Params) -> Particle {
    Particle {
        handle: p.handle,
        position: Vec2 {
            x: clamped(p.position.x, params.half_width),
            y: clamped(p.position.y, params.half_height),
        },
        velocity: Vec2 {
            x: bounced(p.position.x, p.velocity.x, params.half_width, params.damping),
            y: bounced(p.position.y, p.velocity.y, params.half_height, params.damping),
        },
    }
}

/// A store after the walls have been enforced.
pub open spec fn bounded_all(particles: Seq<Particle>, params: Params) -> Seq<Particle> {
    Seq::new(particles.len(), |i: int| bounded(particles[i], params))
}

/// The particle lies in the domain.
pub open spec fn contained(p: Particle, params: Params) -> bool {
    &&& -params.half_width <= p.position.x <= params.half_width
    &&& -params.half_height <= p.position.y <= params.half_height
}

/// The second velocity has the sign opposite to the first.
pub open spec fn flipped(before: i64, after: i64) -> bool {
    (before > 0 && after < 0) || (before < 0 && after > 0)
}

/// After the walls have been enforced, the particle lies in the domain.
pub proof fn lemma_bounded_is_contained(p: Particle, params: Params)
    requires
        params.valid(),
    ensures
        contained(bounded(p, params), params),
{
}

/// A particle in the domain is left as it is.
pub proof fn lemma_contained_is_untouched(p: Particle, params: Params)
    requires
        params.valid(),
        contained(p, params),
    ensures
        bounded(p, params) == p,
{
}

/// A reflection never keeps the sense of a velocity, and never makes it faster.
pub proof fn lemma_reflection_opposes(velocity: i64, damping: i64)
    requires
        0 < damping <= SCALE,
    ensures
        velocity >= 0 ==> -velocity <= reflected(velocity, damping) <= 0,
        velocity <= 0 ==> 0 <= reflected(velocity, damping),
        i64::MIN < velocity <= 0 ==> reflected(velocity, damping) <= -velocity,
{
    let v = velocity as int;
    let d = damping as int;
    if v >= 0 {
        assert(v * (-d) == -(v * d) && 0 <= (v * d) / 1_000_000 <= v) by (nonlinear_arith)
            requires
                v >= 0,
                0 < d <= 1_000_000,
        ;
    } else {
        assert(v * (-d) == (-v) * d && 0 <= ((-v) * d) / 1_000_000 <= -v) by (nonlinear_arith)
            requires
                v < 0,
                0 < d <= 1_000_000,
        ;
    }
}

/// Along an axis the sign of the velocity flips exactly when the particle
/// was put back on a wall, for every velocity that the reflection does not
/// round to rest.
pub proof fn lemma_flip_iff_clamped(position: i64, velocity: i64, half: i64, damping: i64)
    requires
        0 < damping <= SCALE,
        0 <= half,
        outside(position, half) ==> reflected(velocity, damping) != 0,
    ensures
        flipped(velocity, bounced(position, velocity, half, damping)) <==> outside(position, half),
        outside(position, half) <==> clamped(position, half) != position,
{
    lemma_reflection_opposes(velocity, damping);
    if velocity == 0 {
        assert(0 * (-(damping as int)) == 0) by (nonlinear_arith);
    }
}

/// Enforces the walls on every particle.
pub fn enforce_bounds(particles: &mut Vec<Particle>, params: &Params)
    requires
        params.valid(),
    ensures
        final(particles)@ == bounded_all(old(particles)@, *params),
        forall|i: int| 0 <= i < final(particles)@.len() ==> contained(#[trigger] final(particles)@[i], *params),
{
    let n = particles.len();
    let ghost before = particles@;
    let mut i: usize = 0;
    while i < n
        invariant
            i <= n,
            n == before.len(),
            particles@.len() == n,
            params.valid(),
            forall|k: int| 0 <= k < i ==> #[trigger] particles@[k] == bounded(before[k], *params),
            forall|k: int| i <= k < n ==> #[trigger] particles@[k] == before[k],
        decreases n - i,
    {
        let p = particles[i];
        let mut position = p.position;
        let mut velocity = p.velocity;
        if p.position.x < -params.half_width || p.position.x > params.half_width {
            velocity.x = sat_mul(p.velocity.x, -params.damping);
            position.x = if p.position.x < -params.half_width { -params.half_width } else { params.half_width };
        }
        if p.position.y < -params.half_height || p.position.y > params.half_height {
            velocity.y = sat_mul(p.velocity.y, -params.damping);
            position.y = if p.position.y < -params.half_height { -params.half_height } else { params.half_height };
        }
        particles.set(i, Particle { handle: p.handle, position, velocity });
        i += 1;
    }
    assert(particles@ =~= bounded_all(before, *params));
}

} // verus!
