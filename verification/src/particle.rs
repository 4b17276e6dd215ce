//! A point mass and the three steps of a tick that concern it alone:
//! motion, gravity and rest.

use vstd::prelude::*;
use crate::fixed::{
    fx_mul, fx_sub, magnitude_below, spec_fx_mul, spec_fx_sub, spec_magnitude_below,
};
use crate::vector::Vec3;

verus! {

/// A point mass: where it is and how fast it moves.
#[derive(Clone, Copy, Debug, PartialEq, Eq, Structural)]
pub struct Particle {
    pub position: Vec3,
    pub velocity: Vec3,
}

/// A velocity component after the sleep rule: zero where its magnitude is
/// strictly below `threshold`, unchanged otherwise.
pub open spec fn spec_settle(c: i64, threshold: i64) -> i64 {
    if spec_magnitude_below(c, threshold) {
        0
    } else {
        c
    }
}

/// Applies the sleep rule to one velocity component.
#[verifier::when_used_as_spec(spec_settle)]
pub fn settle(c: i64, threshold: i64) -> (r: i64)
    ensures
        r == spec_settle(c, threshold),
{
    if magnitude_below(c, threshold) {
        0
    } else {
        c
    }
}

impl Particle {
    /// The particle at `position` moving with `velocity`.
    pub fn new(position: Vec3, velocity: Vec3) -> (p: Particle)
        ensures
            p == (Particle { position, velocity }),
    {
        Particle { position, velocity }
    }

    /// The particle moved along its present velocity for `dt`.
    pub open spec fn spec_integrated(self, dt: i64) -> Particle {
        Particle {
            position: self.position.spec_plus(self.velocity.spec_scaled(dt)),
            velocity: self.velocity,
        }
    }

    /// The particle with `gravity * dt` taken off its vertical velocity.
    pub open spec fn spec_accelerated(self, gravity: i64, dt: i64) -> Particle {
        Particle {
            position: self.position,
            velocity: Vec3 {
                x: self.velocity.x,
                y: spec_fx_sub(self.velocity.y, spec_fx_mul(gravity, dt)),
                z: self.velocity.z,
            },
        }
    }

    /// The particle with the sleep rule applied to each velocity component.
    pub open spec fn spec_settled(self, threshold: i64) -> Particle {
        Particle {
            position: self.position,
            velocity: Vec3 {
                x: spec_settle(self.velocity.x, threshold),
                y: spec_settle(self.velocity.y, threshold),
                z: spec_settle(self.velocity.z, threshold),
            },
        }
    }

    /// Whether no velocity component is non-zero yet below `threshold`
    /// in magnitude.
    pub open spec fn is_settled(self, threshold: i64) -> bool {
        &&& spec_magnitude_below(self.velocity.x, threshold) ==> self.velocity.x == 0
        &&& spec_magnitude_below(self.velocity.y, threshold) ==> self.velocity.y == 0
        &&& spec_magnitude_below(self.velocity.z, threshold) ==> self.velocity.z == 0
    }

    /// Moves the particle along its present velocity for `dt`; the velocity
    /// is left as it was.
    #[verifier::when_used_as_spec(spec_integrated)]
    pub fn integrated(self, dt: i64) -> (p: Particle)
        ensures
            p == self.spec_integrated(dt),
    {
        Particle {
            position: self.position.plus(self.velocity.scaled(dt)),
            velocity: self.velocity,
        }
    }

    /// Takes `gravity * dt` off the vertical velocity; the horizontal
    /// components and the position are left as they were.
    #[verifier::when_used_as_spec(spec_accelerated)]
    pub fn accelerated(self, gravity: i64, dt: i64) -> (p: Particle)
        ensures
            p == self.spec_accelerated(gravity, dt),
    {
        Particle {
            position: self.position,
            velocity: Vec3 {
                x: self.velocity.x,
                y: fx_sub(self.velocity.y, fx_mul(gravity, dt)),
                z: self.velocity.z,
            },
        }
    }

    /// Sets to zero every velocity component whose magnitude is strictly
    /// below `threshold`.
    #[verifier::when_used_as_spec(spec_settled)]
    pub fn settled(self, threshold: i64) -> (p: Particle)
        ensures
            p == self.spec_settled(threshold),
            p.is_settled(threshold),
    {
        Particle {
            position: self.position,
            velocity: Vec3 {
                x: settle(self.velocity.x, threshold),
                y: settle(self.velocity.y, threshold),
                z: settle(self.velocity.z, threshold),
            },
        }
    }
}

} // verus!
