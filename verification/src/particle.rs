//! The particles of the fluid.

use vstd::prelude::*;
use crate::vec2::Vec2;

verus! {

/// A point mass. The handle names the particle for as long as it lives; the
/// simulation moves the particle and never renames it.
#[derive(Clone, Copy, Debug, PartialEq, Eq, Structural)]
pub struct Particle {
    pub handle: u64,
    pub position: Vec2,
    pub velocity: Vec2,
}

/// No two particles share a handle.
pub open spec fn distinct_handles(particles: Seq<Particle>) -> bool {
    forall|i: int, j: int|
        0 <= i < j < particles.len() ==> particles[i].handle != particles[j].handle
}

/// Two stores hold the same particles at the same places, whatever their velocities.
pub open spec fn same_places(before: Seq<Particle>, after: Seq<Particle>) -> bool {
    &&& before.len() == after.len()
    &&& forall|i: int|
        0 <= i < before.len() ==> #[trigger] after[i].handle == before[i].handle
            && after[i].position == before[i].position
}

impl Particle {
    /// A particle at rest.
    pub fn at_rest(handle: u64, position: Vec2) -> (p: Particle)
        ensures
            p == (Particle { handle, position, velocity: Vec2 { x: 0, y: 0 } }),
    {
        Particle { handle, position, velocity: Vec2 { x: 0, y: 0 } }
    }
}

} // verus!
