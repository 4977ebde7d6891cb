//! Affine positions with three fixed-point components.
//!
//! A point is a position, not a direction: subtracting two points yields a
//! `Vector3`, and adding a vector to a point yields another point.

use vstd::prelude::*;

verus! {

use crate::fx::fx_ok;
use crate::vector::Vector3;
use crate::vector::Vector3V;

/// An affine position; each component is a fixed-point scalar.
#[derive(Clone, Copy, Debug, PartialEq, Eq, Structural)]
pub struct Point3 {
    pub x: i64,
    pub y: i64,
    pub z: i64,
}

/// The mathematical model of a point: its components as integers.
pub ghost struct Point3V {
    pub x: int,
    pub y: int,
    pub z: int,
}

impl View for Point3 {
    type V = Point3V;

    open spec fn view(&self) -> Point3V {
        Point3V { x: self.x as int, y: self.y as int, z: self.z as int }
    }
}

/// Every component small enough for products and quotients.
pub open spec fn p3_ok(p: Point3V) -> bool {
    fx_ok(p.x) && fx_ok(p.y) && fx_ok(p.z)
}

pub open spec fn p3_zero() -> Point3V {
    Point3V { x: 0, y: 0, z: 0 }
}

/// The difference of two points: the vector from `b` to `a`.
pub open spec fn p3_sub(a: Point3V, b: Point3V) -> Vector3V {
    Vector3V { x: a.x - b.x, y: a.y - b.y, z: a.z - b.z }
}

/// A point displaced by a vector.
pub open spec fn p3_add_v(p: Point3V, v: Vector3V) -> Point3V {
    Point3V { x: p.x + v.x, y: p.y + v.y, z: p.z + v.z }
}

impl Point3 {
    /// The vector from `other` to `self`.
    pub fn sub(self, other: Point3) -> (r: Vector3)
        requires
            p3_ok(self@),
            p3_ok(other@),
        ensures
            r@ == p3_sub(self@, other@),
    {
        Vector3 { x: self.x - other.x, y: self.y - other.y, z: self.z - other.z }
    }

    /// The point displaced by a vector.
    pub fn add(self, v: Vector3) -> (r: Point3)
        requires
            p3_ok(self@),
            crate::vector::v3_ok(v@),
        ensures
            r@ == p3_add_v(self@, v@),
    {
        Point3 { x: self.x + v.x, y: self.y + v.y, z: self.z + v.z }
    }

    /// A point from its three components.
    pub fn new(x: i64, y: i64, z: i64) -> (r: Point3)
        ensures
            r@ == (Point3V { x: x as int, y: y as int, z: z as int }),
    {
        Point3 { x, y, z }
    }

    /// The origin.
    pub fn zero() -> (r: Point3)
        ensures
            r@ == p3_zero(),
    {
        Point3 { x: 0, y: 0, z: 0 }
    }
}

} // verus!
