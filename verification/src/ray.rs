//! A ray: an origin point and a direction vector.
//!
//! The direction is expected to be close to unit length when the ray comes
//! out of camera-ray generation; the type itself does not enforce it.

use vstd::prelude::*;

verus! {

use crate::point::Point3;
use crate::point::Point3V;
use crate::vector::Vector3;
use crate::vector::Vector3V;

/// A half-line through `origin` along `direction`.
#[derive(Clone, Copy, Debug, PartialEq, Eq, Structural)]
pub struct Ray {
    pub origin: Point3,
    pub direction: Vector3,
}

/// The mathematical model of a ray.
pub ghost struct RayV {
    pub origin: Point3V,
    pub direction: Vector3V,
}

impl View for Ray {
    type V = RayV;

    open spec fn view(&self) -> RayV {
        RayV { origin: self.origin@, direction: self.direction@ }
    }
}

impl Ray {
    /// A ray from its origin and direction.
    pub fn new(origin: Point3, direction: Vector3) -> (r: Ray)
        ensures
            r@ == (RayV { origin: origin@, direction: direction@ }),
    {
        Ray { origin, direction }
    }
}

} // verus!
