//! The configuration of a run.

use vstd::prelude::*;
use crate::fixed::SCALE;
use crate::kernel::KernelShape;

verus! {

/// The parameters of a simulation, fixed for the duration of a run.
#[derive(Clone, Copy, Debug, PartialEq, Eq, Structural)]
pub struct Params {
    /// Mass of every particle.
    pub mass: i64,
    /// Radius of the support of the smoothing kernel.
    pub smoothing_radius: i64,
    /// Density at which the pressure vanishes.
    pub rest_density: i64,
    /// Pressure per unit of excess density.
    pub stiffness: i64,
    /// Downward acceleration.
    pub gravity: i64,
    /// Factor applied to a velocity on every tick and on every reflection.
    pub damping: i64,
    /// Share of the approach speed that a contact gives back.
    pub restitution: i64,
    /// Half the width of the domain.
    pub half_width: i64,
    /// Half the height of the domain.
    pub half_height: i64,
    /// Radius of the rigid core of every particle.
    pub particle_radius: i64,
    /// Shape of the smoothing kernel.
    pub kernel: KernelShape,
}

impl Params {
    /// The configuration describes a physical system: positive mass and
    /// smoothing radius, a damping factor in `(0, 1]`, a restitution in
    /// `[0, 1]`, and extents that are not negative.
    pub open spec fn valid(self) -> bool {
        &&& 0 < self.mass
        &&& 0 < self.smoothing_radius
        &&& 0 < self.damping <= SCALE
        &&& 0 <= self.restitution <= SCALE
        &&& 0 <= self.half_width
        &&& 0 <= self.half_height
        &&& 0 <= self.particle_radius
    }

    /// Whether the configuration is valid.
    pub fn is_valid(&self) -> (b: bool)
        ensures
            b == self.valid(),
    {
        0 < self.mass && 0 < self.smoothing_radius && 0 < self.damping && self.damping <= SCALE
            && 0 <= self.restitution && self.restitution <= SCALE && 0 <= self.half_width && 0
            <= self.half_height && 0 <= self.particle_radius
    }

    /// The given configuration, or `None` when it is not valid.
    pub fn validated(candidate: Params) -> (r: Option<Params>)
        ensures
            r == (if candidate.valid() { Some(candidate) } else { None }),
    {
        if candidate.is_valid() { Some(candidate) } else { None }
    }

    /// A dense, strongly damped fluid in a square box a hundred units wide,
    /// smoothed by the edge kernel.
    pub fn standard() -> (p: Params)
        ensures
            p.valid(),
            p == (Params {
                mass: 50_000_000,
                smoothing_radius: 5_000_000,
                rest_density: 5_000_000_000,
                stiffness: 2_000_000,
                gravity: 10_000_000,
                damping: 990_000,
                restitution: 10_000,
                half_width: 50_000_000,
                half_height: 50_000_000,
                particle_radius: 1_000_000,
                kernel: KernelShape::Edge,
            }),
    {
        Params {
            mass: 50_000_000,
            smoothing_radius: 5_000_000,
            rest_density: 5_000_000_000,
            stiffness: 2_000_000,
            gravity: 10_000_000,
            damping: 990_000,
            restitution: 10_000,
            half_width: 50_000_000,
            half_height: 50_000_000,
            particle_radius: 1_000_000,
            kernel: KernelShape::Edge,
        }
    }
}

} // verus!
