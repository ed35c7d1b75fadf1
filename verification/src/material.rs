//! What a material decides when a ray strikes it: to scatter or to absorb,
//! to refract or to reflect.

use vstd::prelude::*;
use crate::scalar::Scalar;

verus! {

/// On which side of a surface a ray travels.
#[derive(Clone, Copy, Debug, PartialEq, Eq, Structural)]
pub enum Side {
    /// The ray runs with the normal: it leaves the medium.
    Exiting,
    /// The ray runs against the normal, or across it: it enters the medium.
    Entering,
}

/// A mirror with a roughness.
#[derive(Clone, Copy, Debug, PartialEq, Eq, Structural)]
pub struct Metal {
    pub fuzz: Scalar,
}

/// A transparent medium. It sends every ray on, refracted or reflected.
#[derive(Clone, Copy, Debug, PartialEq, Eq, Structural)]
pub struct Dielectric {}

impl Metal {
    /// The roughness held to the range from zero to one: a roughness that
    /// is not below one counts as one, and one that is not above zero as
    /// zero.
    pub open spec fn fuzz_spec(self) -> Scalar {
        if self.fuzz.lt_spec(Scalar { bits: crate::scalar::ONE_BITS }) {
            if self.fuzz.positive() {
                self.fuzz
            } else {
                Scalar { bits: 0 }
            }
        } else {
            Scalar { bits: crate::scalar::ONE_BITS }
        }
    }

    /// A mirror of the given roughness.
    pub fn new(fuzz: Scalar) -> (m: Metal)
        ensures
            m.fuzz == fuzz,
    {
        Metal { fuzz }
    }

    /// The roughness by which the reflected direction is perturbed.
    pub fn fuzz_in_use(&self) -> (f: Scalar)
        ensures
            f == self.fuzz_spec(),
            !f.nan(),
            0 <= f.rank() <= crate::scalar::ONE_BITS,
    {
        if self.fuzz.lt(Scalar::one()) {
            if self.fuzz.is_positive() {
                self.fuzz
            } else {
                Scalar::zero()
            }
        } else {
            Scalar::one()
        }
    }

    /// Whether the perturbed reflection is sent on, given its dot product
    /// with the surface normal: only a direction that leaves the surface
    /// is. One that runs along or into it is absorbed.
    pub fn scatters(direction_dot_normal: Scalar) -> (r: bool)
        ensures
            r == direction_dot_normal.positive(),
            direction_dot_normal.le_spec(Scalar { bits: 0 }) ==> !r,
    {
        direction_dot_normal.is_positive()
    }
}

impl Dielectric {
    /// The side of the surface, by the dot product of the ray's direction
    /// with the normal.
    pub fn side(direction_dot_normal: Scalar) -> (s: Side)
        ensures
            s == if direction_dot_normal.positive() {
                Side::Exiting
            } else {
                Side::Entering
            },
    {
        if direction_dot_normal.is_positive() {
            Side::Exiting
        } else {
            Side::Entering
        }
    }

    /// Whether Snell's law has a real solution, by its discriminant: it has
    /// none, and the ray is reflected within the medium, when the
    /// discriminant is not above zero.
    pub fn refracts(discriminant: Scalar) -> (r: bool)
        ensures
            r == discriminant.positive(),
            discriminant.le_spec(Scalar { bits: 0 }) ==> !r,
            !discriminant.nan() ==> (!r <==> discriminant.le_spec(Scalar { bits: 0 })),
    {
        discriminant.is_positive()
    }

    /// Whether a ray that can refract does so, given a uniform sample and
    /// the reflectance: it refracts when the sample exceeds the
    /// reflectance and is reflected otherwise.
    pub fn transmits(sample: Scalar, reflectance: Scalar) -> (r: bool)
        ensures
            r == reflectance.lt_spec(sample),
    {
        sample.gt(reflectance)
    }
}

} // verus!
