//! Triples of scalars: points, directions and colours.

use vstd::prelude::*;
use crate::scalar::Scalar;

verus! {

/// A point or a direction in space.
#[derive(Clone, Copy, Debug, PartialEq, Eq, Structural)]
pub struct Vec3 {
    pub x: Scalar,
    pub y: Scalar,
    pub z: Scalar,
}

impl Vec3 {
    /// The component on an axis: 0 is x, 1 is y, 2 is z.
    pub open spec fn component(self, axis: int) -> Scalar {
        if axis == 0 {
            self.x
        } else if axis == 1 {
            self.y
        } else {
            self.z
        }
    }

    /// Whether no component is a NaN.
    pub open spec fn is_numeric(self) -> bool {
        !self.x.nan() && !self.y.nan() && !self.z.nan()
    }

    /// The componentwise minimum.
    pub open spec fn spec_min(self, other: Vec3) -> Vec3 {
        Vec3 {
            x: self.x.spec_min(other.x),
            y: self.y.spec_min(other.y),
            z: self.z.spec_min(other.z),
        }
    }

    /// The componentwise maximum.
    pub open spec fn spec_max(self, other: Vec3) -> Vec3 {
        Vec3 {
            x: self.x.spec_max(other.x),
            y: self.y.spec_max(other.y),
            z: self.z.spec_max(other.z),
        }
    }

    /// The vector with the sign of every component flipped.
    pub open spec fn spec_neg(self) -> Vec3 {
        Vec3 { x: self.x.spec_neg(), y: self.y.spec_neg(), z: self.z.spec_neg() }
    }

    /// The vector with `value` on `axis` and the other components kept.
    pub open spec fn with_component(self, axis: int, value: Scalar) -> Vec3 {
        if axis == 0 {
            Vec3 { x: value, y: self.y, z: self.z }
        } else if axis == 1 {
            Vec3 { x: self.x, y: value, z: self.z }
        } else {
            Vec3 { x: self.x, y: self.y, z: value }
        }
    }

    pub fn new(x: Scalar, y: Scalar, z: Scalar) -> (r: Vec3)
        ensures
            r == (Vec3 { x, y, z }),
    {
        Vec3 { x, y, z }
    }

    /// The origin.
    pub fn zero() -> (r: Vec3)
        ensures
            r.x.bits == 0,
            r.y.bits == 0,
            r.z.bits == 0,
    {
        Vec3 { x: Scalar::zero(), y: Scalar::zero(), z: Scalar::zero() }
    }

    /// Reads the component on `axis`.
    pub fn get(&self, axis: usize) -> (r: Scalar)
        requires
            axis < 3,
        ensures
            r == self.component(axis as int),
    {
        if axis == 0 {
            self.x
        } else if axis == 1 {
            self.y
        } else {
            self.z
        }
    }

    /// Writes the component on `axis`.
    pub fn set(&mut self, axis: usize, value: Scalar)
        requires
            axis < 3,
        ensures
            *final(self) == old(self).with_component(axis as int, value),
    {
        if axis == 0 {
            self.x = value;
        } else if axis == 1 {
            self.y = value;
        } else {
            self.z = value;
        }
    }

    pub fn min(&self, other: &Vec3) -> (r: Vec3)
        ensures
            r == self.spec_min(*other),
    {
        Vec3 { x: self.x.min(other.x), y: self.y.min(other.y), z: self.z.min(other.z) }
    }

    pub fn max(&self, other: &Vec3) -> (r: Vec3)
        ensures
            r == self.spec_max(*other),
    {
        Vec3 { x: self.x.max(other.x), y: self.y.max(other.y), z: self.z.max(other.z) }
    }

    /// The three components, x first.
    pub fn to_vec_f32(&self) -> (v: Vec<Scalar>)
        ensures
            v@ == seq![self.x, self.y, self.z],
    {
        let mut v: Vec<Scalar> = Vec::new();
        v.push(self.x);
        v.push(self.y);
        v.push(self.z);
        v
    }

    pub fn neg(&self) -> (r: Vec3)
        ensures
            r == self.spec_neg(),
    {
        Vec3 { x: self.x.neg(), y: self.y.neg(), z: self.z.neg() }
    }
}

} // verus!
