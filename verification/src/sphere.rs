//! Spheres and the analytic ray-sphere intersection test.
//!
//! The test is the geometric form: with `v` the vector from the sphere's
//! centre to the ray origin, `b = dot(direction, v)` and
//! `c = dot(v, v) - radius^2`, a ray whose origin is outside the sphere
//! (`c > 0`) and which points away from it (`b > 0`) misses; otherwise the
//! ray hits exactly when the discriminant `b^2 - c` is non-negative, at
//! distance `max(0, -b - sqrt(b^2 - c))` along the (unit) direction.

use vstd::prelude::*;

verus! {

use crate::fx::fmul;
use crate::fx::fmul_s;
use crate::fx::fsqrt;
use crate::fx::isqrt_s;
use crate::fx::lemma_fmul_bound;
use crate::fx::lemma_isqrt_s;
use crate::fx::lemma_isqrt_square;
use crate::fx::ONE;
use crate::point::p3_sub;
use crate::point::p3_add_v;
use crate::point::Point3;
use crate::point::Point3V;
use crate::ray::Ray;
use crate::ray::RayV;
use crate::vector::dot_s;
use crate::vector::lemma_dot_bound;
use crate::vector::v3_div;
use crate::vector::Vector3;
use crate::vector::Vector3V;
use vstd::arithmetic::div_mod::lemma_div_pos_is_pos;
use vstd::arithmetic::div_mod::lemma_fundamental_div_mod;
use vstd::arithmetic::div_mod::lemma_div_multiples_vanish;

/// Bound on world coordinates (centres, origins, radii): roughly 32768
/// units either way, far inside the range where the intersection
/// arithmetic stays exact.
pub const COORD_BOUND: i64 = 0x8000_0000;

/// Bound on ray-direction components: four fixed-point units, which every
/// normalised vector satisfies.
pub const DIR_BOUND: i64 = 0x40000;

pub open spec fn coord_ok(a: int) -> bool {
    -(COORD_BOUND as int) <= a <= COORD_BOUND as int
}

/// A point within the world bound.
pub open spec fn p3_in_world(p: Point3V) -> bool {
    coord_ok(p.x) && coord_ok(p.y) && coord_ok(p.z)
}

/// A scene sphere: centre within the world bound, radius non-negative.
pub open spec fn sphere_ok(s: SphereV) -> bool {
    p3_in_world(s.centre) && 0 <= s.radius <= COORD_BOUND as int
}

/// A query ray: origin within the world bound, direction within the
/// normalised-direction bound.
pub open spec fn ray_ok(r: RayV) -> bool {
    p3_in_world(r.origin) && -(DIR_BOUND as int)
        <= r.direction.x <= DIR_BOUND as int && -(DIR_BOUND as int) <= r.direction.y
        <= DIR_BOUND as int && -(DIR_BOUND as int) <= r.direction.z <= DIR_BOUND as int
}

/// A sphere: a centre and a fixed-point radius.
#[derive(Clone, Copy, Debug, PartialEq, Eq, Structural)]
pub struct Sphere {
    pub centre: Point3,
    pub radius: i64,
}

/// The mathematical model of a sphere.
pub ghost struct SphereV {
    pub centre: Point3V,
    pub radius: int,
}

impl View for Sphere {
    type V = SphereV;

    open spec fn view(&self) -> SphereV {
        SphereV { centre: self.centre@, radius: self.radius as int }
    }
}

/// The vector from the sphere's centre to the ray's origin.
pub open spec fn isect_v(s: SphereV, r: RayV) -> Vector3V {
    p3_sub(r.origin, s.centre)
}

/// The signed projection of that vector on the ray direction.
pub open spec fn isect_b(s: SphereV, r: RayV) -> int {
    dot_s(r.direction, isect_v(s, r))
}

/// The squared distance of the origin from the surface, in the quadratic's
/// constant term: positive exactly when the origin is outside the sphere.
pub open spec fn isect_c(s: SphereV, r: RayV) -> int {
    dot_s(isect_v(s, r), isect_v(s, r)) - fmul_s(s.radius, s.radius)
}

/// The discriminant of the intersection quadratic.
pub open spec fn isect_disc(s: SphereV, r: RayV) -> int {
    fmul_s(isect_b(s, r), isect_b(s, r)) - isect_c(s, r)
}

/// Whether the ray hits the sphere: not rejected as pointing away from an
/// outside position, and with a non-negative discriminant.
pub open spec fn hit_s(s: SphereV, r: RayV) -> bool {
    !(isect_c(s, r) > 0 && isect_b(s, r) > 0) && isect_disc(s, r) >= 0
}

/// The hit distance along the ray: the nearer quadratic root, clamped to
/// zero so an origin inside the sphere reports a hit at distance zero.
pub open spec fn dist_s(s: SphereV, r: RayV) -> int {
    let d = -isect_b(s, r) - isqrt_s(isect_disc(s, r) * (ONE as int));
    if d > 0 {
        d
    } else {
        0
    }
}

/// The surface normal at a point of the sphere's surface: the radius
/// vector scaled down by the radius. Exact only for points on the surface;
/// the caller owns that precondition.
pub open spec fn normal_s(s: SphereV, p: Point3V) -> Vector3V {
    v3_div(p3_sub(p, s.centre), s.radius)
}

/// The hit distance is never negative: an origin inside the sphere reports
/// distance zero, not a negative root.
pub proof fn lemma_distance_nonneg(s: SphereV, r: RayV)
    ensures
        0 <= dist_s(s, r),
{
}

/// A ray whose origin is strictly outside the sphere and which points away
/// from it never hits.
pub proof fn lemma_outside_pointing_away_misses(s: SphereV, r: RayV)
    requires
        isect_c(s, r) > 0,
        isect_b(s, r) > 0,
    ensures
        !hit_s(s, r),
{
}

/// A ray starting on the surface of the sphere or inside it always hits,
/// whichever way it points.
pub proof fn lemma_inside_always_hits(s: SphereV, r: RayV)
    requires
        isect_c(s, r) <= 0,
    ensures
        hit_s(s, r),
{
    let b = isect_b(s, r);
    assert(b * b >= 0) by (nonlinear_arith);
    assert(ONE == 65536);
    lemma_div_pos_is_pos(b * b, ONE as int);
}

/// A ray starting on the surface (or inside) and not pointing inward hits
/// at distance exactly zero.
pub proof fn lemma_surface_origin_hits_at_zero(s: SphereV, r: RayV)
    requires
        isect_c(s, r) <= 0,
        0 <= isect_b(s, r),
    ensures
        hit_s(s, r),
        dist_s(s, r) == 0,
{
    let b = isect_b(s, r);
    let disc = isect_disc(s, r);
    assert(b * b >= 0) by (nonlinear_arith);
    assert(ONE == 65536);
    lemma_div_pos_is_pos(b * b, ONE as int);
    assert(disc >= 0);
    assert(disc * (ONE as int) >= 0) by (nonlinear_arith)
        requires
            disc >= 0 && ONE as int == 65536;
    lemma_isqrt_s(disc * (ONE as int));
    assert(isqrt_s(disc * (ONE as int)) >= 0);
}

/// A ray aimed straight at the centre of a sphere ahead of it on the third
/// axis hits at distance exactly `t - radius`, whenever the radius is a
/// whole multiple of 1/256 of a unit (so that its square is exact) and the
/// origin lies outside (`t > radius`).
pub proof fn lemma_head_on_hit_distance(s: SphereV, r: RayV, t: int)
    requires
        r.direction == (Vector3V { x: 0, y: 0, z: ONE as int }),
        s.centre == p3_add_v(r.origin, Vector3V { x: 0, y: 0, z: t }),
        0 <= s.radius,
        s.radius % 256 == 0,
        s.radius < t,
    ensures
        hit_s(s, r),
        dist_s(s, r) == t - s.radius,
{
    let rad = s.radius;
    let u = rad / 256;
    lemma_fundamental_div_mod(rad, 256);
    let v = isect_v(s, r);
    assert(ONE == 65536);
    assert(v.x == 0 && v.y == 0 && v.z == -t);
    assert(r.direction.x * v.x == 0 && r.direction.y * v.y == 0) by (nonlinear_arith)
        requires
            v.x == 0 && v.y == 0;
    assert(r.direction.z * v.z == 65536 * (-t)) by (nonlinear_arith)
        requires
            r.direction.z == 65536 && v.z == -t;
    lemma_div_multiples_vanish(-t, 65536);
    assert(isect_b(s, r) == -t);
    assert(v.x * v.x == 0 && v.y * v.y == 0 && v.z * v.z == t * t) by (nonlinear_arith)
        requires
            v.x == 0 && v.y == 0 && v.z == -t;
    assert(dot_s(v, v) == (t * t) / 65536);
    assert(rad == 256 * u);
    assert(rad * rad == 65536 * (u * u)) by (nonlinear_arith)
        requires
            rad == 256 * u;
    lemma_div_multiples_vanish(u * u, 65536);
    assert(fmul_s(rad, rad) == u * u);
    assert(isect_c(s, r) == (t * t) / 65536 - u * u);
    assert((-t) * (-t) == t * t) by (nonlinear_arith);
    assert(fmul_s(-t, -t) == (t * t) / 65536);
    assert(isect_disc(s, r) == u * u);
    assert(u * u >= 0) by (nonlinear_arith);
    assert(hit_s(s, r)) by {
        assert(isect_b(s, r) == -t && t > 0);
    }
    assert((u * u) * 65536 == rad * rad) by (nonlinear_arith)
        requires
            rad * rad == 65536 * (u * u);
    assert(isect_disc(s, r) * (ONE as int) == rad * rad);
    lemma_isqrt_square(rad);
    assert(isqrt_s(isect_disc(s, r) * (ONE as int)) == rad);
    assert(dist_s(s, r) == t - rad);
}

impl Sphere {
    /// A sphere from its centre and radius.
    pub fn new(centre: Point3, radius: i64) -> (r: Sphere)
        ensures
            r@ == (SphereV { centre: centre@, radius: radius as int }),
    {
        Sphere { centre, radius }
    }

    /// The analytic intersection test: whether the ray hits this sphere,
    /// and at which distance along the (unit) ray direction. The distance
    /// is zero, and meaningless, when the first component is false.
    pub fn intersect(self, ray: Ray) -> (res: (bool, i64))
        requires
            sphere_ok(self@),
            ray_ok(ray@),
        ensures
            res.0 == hit_s(self@, ray@),
            res.1 as int == if hit_s(self@, ray@) {
                dist_s(self@, ray@)
            } else {
                0
            },
    {
        let v = ray.origin.sub(self.centre);
        proof {
            lemma_dot_bound(v@, v@, 0x1_0000_0000, 0x1_0000_0000, 0x3_0000_0000_0000);
            lemma_dot_bound(ray.direction@, v@, 0x40000, 0x1_0000_0000, 0xC_0000_0000);
            crate::vector::lemma_dot_self_nonneg(v@);
        }
        let lsq = v.length_squared();
        let b = ray.direction.dot(v);
        proof {
            lemma_fmul_bound(b as int, b as int, 0xC_0000_0000, 0xC_0000_0000, 0x90_0000_0000_0000);
            lemma_fmul_bound(
                self.radius as int,
                self.radius as int,
                0x8000_0000,
                0x8000_0000,
                0x4000_0000_0000,
            );
        }
        let bsq = fmul(b, b);
        let rsq = fmul(self.radius, self.radius);
        let c = lsq - rsq;
        if c > 0 && b > 0 {
            return (false, 0);
        }
        let disc = bsq - c;
        if disc < 0 {
            return (false, 0);
        }
        let sq = fsqrt(disc);
        let d = -b - sq;
        if d > 0 {
            (true, d)
        } else {
            (true, 0)
        }
    }

    /// The surface normal at a point assumed to lie on the surface: the
    /// radius vector divided by the (positive) radius. Not re-normalised;
    /// a point off the surface gives a vector off unit length.
    pub fn get_normal(self, p: Point3) -> (r: Vector3)
        requires
            sphere_ok(self@),
            p3_in_world(p@),
            0 < self@.radius,
        ensures
            r@ == normal_s(self@, p@),
    {
        p.sub(self.centre).div(self.radius)
    }
}

} // verus!
