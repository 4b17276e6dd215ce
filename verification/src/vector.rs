//! Three-component vectors of fixed-point scalars.

use vstd::prelude::*;
use crate::fixed::{
    fx_add, fx_mul, fx_sub, lemma_mul_by_unit, lemma_mul_by_zero, saturate, spec_fx_add,
    spec_fx_mul, spec_fx_sub, SCALE,
};

verus! {

/// A vector in world space; each component counts millionths.
#[derive(Clone, Copy, Debug, PartialEq, Eq, Structural)]
pub struct Vec3 {
    pub x: i64,
    pub y: i64,
    pub z: i64,
}

impl Vec3 {
    /// Whether the vector is one whole unit long and lies along an axis.
    pub open spec fn is_axis_unit(self) -> bool {
        ||| (self.x == SCALE || self.x == -SCALE) && self.y == 0 && self.z == 0
        ||| self.x == 0 && (self.y == SCALE || self.y == -SCALE) && self.z == 0
        ||| self.x == 0 && self.y == 0 && (self.z == SCALE || self.z == -SCALE)
    }

    /// The component of `self` along the axis of the axis unit `axis`.
    pub open spec fn along(self, axis: Vec3) -> i64 {
        if axis.x != 0 {
            self.x
        } else if axis.y != 0 {
            self.y
        } else {
            self.z
        }
    }

    /// The vector with the given components.
    pub fn new(x: i64, y: i64, z: i64) -> (v: Vec3)
        ensures
            v == (Vec3 { x, y, z }),
    {
        Vec3 { x, y, z }
    }

    /// The component-wise saturated sum.
    pub open spec fn spec_plus(self, other: Vec3) -> Vec3 {
        Vec3 {
            x: spec_fx_add(self.x, other.x),
            y: spec_fx_add(self.y, other.y),
            z: spec_fx_add(self.z, other.z),
        }
    }

    /// The component-wise saturated difference.
    pub open spec fn spec_minus(self, other: Vec3) -> Vec3 {
        Vec3 {
            x: spec_fx_sub(self.x, other.x),
            y: spec_fx_sub(self.y, other.y),
            z: spec_fx_sub(self.z, other.z),
        }
    }

    /// Every component multiplied by the scalar `k`.
    pub open spec fn spec_scaled(self, k: i64) -> Vec3 {
        Vec3 {
            x: spec_fx_mul(self.x, k),
            y: spec_fx_mul(self.y, k),
            z: spec_fx_mul(self.z, k),
        }
    }

    /// The inner product, summed from `x` to `z`.
    pub open spec fn spec_dot(self, other: Vec3) -> i64 {
        spec_fx_add(
            spec_fx_add(spec_fx_mul(self.x, other.x), spec_fx_mul(self.y, other.y)),
            spec_fx_mul(self.z, other.z),
        )
    }

    /// Adds two vectors component by component.
    #[verifier::when_used_as_spec(spec_plus)]
    pub fn plus(self, other: Vec3) -> (v: Vec3)
        ensures
            v == self.spec_plus(other),
    {
        Vec3 {
            x: fx_add(self.x, other.x),
            y: fx_add(self.y, other.y),
            z: fx_add(self.z, other.z),
        }
    }

    /// Subtracts `other` component by component.
    #[verifier::when_used_as_spec(spec_minus)]
    pub fn minus(self, other: Vec3) -> (v: Vec3)
        ensures
            v == self.spec_minus(other),
    {
        Vec3 {
            x: fx_sub(self.x, other.x),
            y: fx_sub(self.y, other.y),
            z: fx_sub(self.z, other.z),
        }
    }

    /// Multiplies every component by the scalar `k`.
    #[verifier::when_used_as_spec(spec_scaled)]
    pub fn scaled(self, k: i64) -> (v: Vec3)
        ensures
            v == self.spec_scaled(k),
    {
        Vec3 { x: fx_mul(self.x, k), y: fx_mul(self.y, k), z: fx_mul(self.z, k) }
    }

    /// Computes the inner product with `other`.
    #[verifier::when_used_as_spec(spec_dot)]
    pub fn dot(self, other: Vec3) -> (d: i64)
        ensures
            d == self.spec_dot(other),
    {
        fx_add(
            fx_add(fx_mul(self.x, other.x), fx_mul(self.y, other.y)),
            fx_mul(self.z, other.z),
        )
    }
}

/// The inner product with an axis unit picks the component along that
/// axis, negated (and saturated) where the unit points the negative way.
pub proof fn lemma_dot_with_axis_unit(axis: Vec3, v: Vec3)
    requires
        axis.is_axis_unit(),
    ensures
        axis.spec_dot(v) == if axis.along(axis) > 0 {
            v.along(axis)
        } else {
            saturate(-v.along(axis))
        },
{
    lemma_mul_by_zero(v.x);
    lemma_mul_by_zero(v.y);
    lemma_mul_by_zero(v.z);
    lemma_mul_by_unit(v.x);
    lemma_mul_by_unit(v.y);
    lemma_mul_by_unit(v.z);
}

/// Scaling an axis unit by `k` gives `k` along its axis, negated (and
/// saturated) where the unit points the negative way, and zero across it.
pub proof fn lemma_scaled_axis_unit(axis: Vec3, k: i64)
    requires
        axis.is_axis_unit(),
    ensures
        axis.spec_scaled(k).along(axis) == if axis.along(axis) > 0 {
            k
        } else {
            saturate(-k)
        },
        axis.x == 0 ==> axis.spec_scaled(k).x == 0,
        axis.y == 0 ==> axis.spec_scaled(k).y == 0,
        axis.z == 0 ==> axis.spec_scaled(k).z == 0,
{
    lemma_mul_by_zero(k);
    lemma_mul_by_unit(k);
}

} // verus!
