//! Camera-ray generation, the nearest-hit scan over a scene of spheres, and
//! Lambertian shading of a hit by a single point light.
//!
//! `render_pixel` is the whole per-pixel pipeline: pixel coordinate to
//! image-plane coordinates, camera ray through the view matrix, nearest
//! intersection, diffuse shading with inverse-square falloff, and the final
//! clamp to the 8-bit output range. Its result is pinned by the spec
//! function `render_pixel_s`. A degenerate pixel (a view transform that
//! collapses the ray direction, or a light sitting exactly on the surface
//! point) renders as background rather than aborting the scan.

use vstd::prelude::*;

verus! {

use crate::fx::fdiv;
use crate::fx::fdiv_s;
use crate::fx::floor_div_wide;
use crate::fx::fmul;
use crate::fx::fmul_s;
use crate::fx::lemma_div_mag;
use crate::fx::lemma_fmul_bound;
use crate::fx::ONE;
use crate::matrix::m3_mul_p;
use crate::matrix::m3_mul_ray_s;
use crate::matrix::m3_mul_v;
use crate::matrix::Matrix3;
use crate::matrix::Matrix3V;
use crate::point::p3_add_v;
use crate::point::p3_sub;
use crate::point::p3_zero;
use crate::point::Point3;
use crate::point::Point3V;
use crate::ray::Ray;
use crate::ray::RayV;
use crate::sphere::dist_s;
use crate::sphere::hit_s;
use crate::sphere::isect_v;
use crate::sphere::normal_s;
use crate::sphere::p3_in_world;
use crate::sphere::ray_ok;
use crate::sphere::sphere_ok;
use crate::sphere::Sphere;
use crate::sphere::SphereV;
use crate::vector::dot_raw;
use crate::vector::dot_s;
use crate::vector::lemma_dot_bound;
use crate::vector::lemma_normalize_bounded;
use crate::vector::lsq_s;
use crate::vector::v3_normalize;
use crate::vector::v3_scale;
use crate::vector::Vector3;
use crate::vector::Vector3V;
use vstd::arithmetic::div_mod::lemma_div_is_ordered;
use vstd::arithmetic::div_mod::lemma_div_of0;
use vstd::arithmetic::div_mod::lemma_div_pos_is_pos;
use vstd::arithmetic::div_mod::lemma_div_multiples_vanish;

/// The reciprocal of pi in fixed point: floor(ONE / pi).
pub const INV_PI: i64 = 20860;

/// The greatest light intensity the shading arithmetic accepts.
pub const MAX_LIGHT: i64 = 0x2_0000_0000;

/// The saturating upper bound of the radiance scale: 255 in fixed point,
/// matching the 8-bit output encoding.
pub const MAX_OUT: i64 = 255 * 65536;

/// The distance reported for a miss by the nearest-hit scan: farther than
/// any representable hit.
pub const FAR: i64 = 0x7fff_ffff_ffff_ffff;

/// Every hit distance of a well-formed query lies below this bound.
pub const DIST_BOUND: i64 = 0xC_0000_0000;

/// A pinhole camera: its orientation and its focal factor,
/// `1 / tan(field_of_view / 2)` as a fixed-point scalar, computed once at
/// construction so the field of view is a runtime parameter.
#[derive(Clone, Copy, Debug, PartialEq, Eq, Structural)]
pub struct Camera {
    pub view: Matrix3,
    pub fov_factor: i64,
}

/// The mathematical model of a camera.
pub ghost struct CameraV {
    pub view: Matrix3V,
    pub fov_factor: int,
}

impl View for Camera {
    type V = CameraV;

    open spec fn view(&self) -> CameraV {
        CameraV { view: self.view@, fov_factor: self.fov_factor as int }
    }
}

/// Vector components within four fixed-point units.
pub open spec fn v3_small(v: Vector3V) -> bool {
    -0x40000 <= v.x <= 0x40000 && -0x40000 <= v.y <= 0x40000 && -0x40000 <= v.z <= 0x40000
}

/// A well-formed camera: view-matrix entries within four units and a focal
/// factor between a quarter unit and sixteen units.
pub open spec fn camera_ok(c: CameraV) -> bool {
    v3_small(c.view.r0) && v3_small(c.view.r1) && v3_small(c.view.r2) && 16384 <= c.fov_factor
        <= 0x100000
}

/// The camera-local, unnormalised ray direction through image-plane
/// coordinates `(u, v)`.
pub open spec fn camera_local_dir(c: CameraV, u: int, v: int) -> Vector3V {
    Vector3V { x: u, y: v, z: c.fov_factor }
}

/// The world-space camera ray: the local ray, normalised, then taken
/// through the view matrix.
pub open spec fn camera_ray_s(c: CameraV, u: int, v: int) -> RayV {
    m3_mul_ray_s(
        c.view,
        RayV { origin: p3_zero(), direction: v3_normalize(camera_local_dir(c, u, v)) },
    )
}

/// The horizontal image-plane coordinate of a pixel column:
/// `(width / height) * (2 x / width - 1)` over the rationals.
pub open spec fn u_of_pixel(x: int, width: int, height: int) -> int {
    ((2 * x - width) * 65536) / height
}

/// The vertical image-plane coordinate of a pixel row: `2 y / height - 1`
/// over the rationals.
pub open spec fn v_of_pixel(y: int, height: int) -> int {
    ((2 * y - height) * 65536) / height
}

/// A linear map takes the origin to the origin.
pub proof fn lemma_mul_zero_point(m: Matrix3V)
    ensures
        m3_mul_p(m, p3_zero()) == p3_zero(),
{
    let v = Vector3V { x: 0, y: 0, z: 0 };
    assert(m.r0.x * 0 == 0 && m.r0.y * 0 == 0 && m.r0.z * 0 == 0 && m.r1.x * 0 == 0 && m.r1.y * 0
        == 0 && m.r1.z * 0 == 0 && m.r2.x * 0 == 0 && m.r2.y * 0 == 0 && m.r2.z * 0 == 0)
        by (nonlinear_arith);
    assert(dot_raw(m.r0, v) == 0 && dot_raw(m.r1, v) == 0 && dot_raw(m.r2, v) == 0);
    lemma_div_of0(ONE as int);
}

/// The local camera direction of a well-formed camera is never the zero
/// vector: its squared length is at least the square of the focal factor.
pub proof fn lemma_camera_local_nonzero(c: CameraV, u: int, v: int)
    requires
        camera_ok(c),
    ensures
        1 <= lsq_s(camera_local_dir(c, u, v)),
{
    let d = camera_local_dir(c, u, v);
    assert(dot_raw(d, d) >= 0x1000_0000) by (nonlinear_arith)
        requires
            d.z >= 16384 && dot_raw(d, d) == d.x * d.x + d.y * d.y + d.z * d.z;
    assert(ONE == 65536);
    lemma_div_is_ordered(0x1000_0000, dot_raw(d, d), 65536);
    assert(0x1000_0000int / 65536 == 4096);
    assert(dot_raw(d, d) / (ONE as int) == dot_raw(d, d) / 65536);
}

impl Camera {
    /// A camera from its orientation and its focal factor.
    pub fn new(view: Matrix3, fov_factor: i64) -> (c: Camera)
        ensures
            c@ == (CameraV { view: view@, fov_factor: fov_factor as int }),
    {
        Camera { view, fov_factor }
    }

    /// The world-space ray through image-plane coordinates `(u, v)`: the
    /// local direction `(u, v, fov_factor)` normalised and taken through
    /// the view matrix. The view matrix must not collapse the direction to
    /// (nearly) zero.
    pub fn get_camera_ray(&self, u: i64, v: i64) -> (r: Ray)
        requires
            camera_ok(self@),
            -0x100000 <= u <= 0x100000,
            -0x100000 <= v <= 0x100000,
            1 <= lsq_s(
                m3_mul_v(self@.view, v3_normalize(camera_local_dir(self@, u as int, v as int))),
            ),
        ensures
            r@ == camera_ray_s(self@, u as int, v as int),
            ray_ok(r@),
    {
        let origin = Point3::zero();
        let local = Vector3::new(u, v, self.fov_factor);
        proof {
            lemma_camera_local_nonzero(self@, u as int, v as int);
            lemma_normalize_bounded(local@);
        }
        let direction = local.normalised();
        proof {
            lemma_dot_bound(self@.view.r0, direction@, 0x40000, 0x40000, 0x30_0000);
            lemma_dot_bound(self@.view.r1, direction@, 0x40000, 0x40000, 0x30_0000);
            lemma_dot_bound(self@.view.r2, direction@, 0x40000, 0x40000, 0x30_0000);
            lemma_normalize_bounded(m3_mul_v(self@.view, direction@));
            lemma_mul_zero_point(self@.view);
        }
        self.view.mul_ray(Ray::new(origin, direction))
    }
}

/// Image-plane coordinates of a pixel centre, from the pixel indices and
/// the image size: `u` spans `-aspect .. aspect`, `v` spans `-1 .. 1`.
pub fn pixel_to_uv(x: u32, y: u32, width: u32, height: u32) -> (uv: (i64, i64))
    requires
        1 <= height,
        x < width,
        y < height,
        width <= 16 * height,
        width <= 0x100000,
    ensures
        uv.0 as int == u_of_pixel(x as int, width as int, height as int),
        uv.1 as int == v_of_pixel(y as int, height as int),
        -0x100000 <= uv.0 <= 0x100000,
        -0x10000 <= uv.1 <= 0x10000,
{
    let nx: i64 = 2 * (x as i64) - (width as i64);
    let ny: i64 = 2 * (y as i64) - (height as i64);
    proof {
        assert(-(0x10_0000int * (height as int)) <= (nx as int) * 65536 && (nx as int) * 65536
            <= 0x10_0000int * (height as int)) by (nonlinear_arith)
            requires
                -(width as int) <= nx as int <= width as int && width as int <= 16 * (height as int)
                    && 1 <= height as int;
        lemma_div_mag((nx as int) * 65536, height as int, 0x10_0000);
        assert(-(0x1_0000int * (height as int)) <= (ny as int) * 65536 && (ny as int) * 65536
            <= 0x1_0000int * (height as int)) by (nonlinear_arith)
            requires
                -(height as int) <= ny as int <= height as int && 1 <= height as int;
        lemma_div_mag((ny as int) * 65536, height as int, 0x1_0000);
    }
    let un = floor_div_wide((nx as i128) * 65536, height as i128);
    let vn = floor_div_wide((ny as i128) * 65536, height as i128);
    (un as i64, vn as i64)
}

/// The result of the nearest-hit scan: whether anything was hit, the hit
/// distance (`FAR` on a miss), and the hit sphere (a zero placeholder on a
/// miss).
pub ghost struct NearestV {
    pub found: bool,
    pub distance: int,
    pub sphere: SphereV,
}

/// The scan's starting state: nothing found, at an unreachable distance.
pub open spec fn no_hit_v() -> NearestV {
    NearestV {
        found: false,
        distance: FAR as int,
        sphere: SphereV { centre: Point3V { x: 0, y: 0, z: 0 }, radius: 0 },
    }
}

/// One scan step: a strictly nearer hit replaces the best so far, so the
/// earliest-listed sphere wins exact ties.
pub open spec fn nearest_step(acc: NearestV, s: SphereV, r: RayV) -> NearestV {
    if hit_s(s, r) && dist_s(s, r) < acc.distance {
        NearestV { found: true, distance: dist_s(s, r), sphere: s }
    } else {
        acc
    }
}

/// The scan folded over the scene, front to back.
pub open spec fn nearest_from(scene: Seq<SphereV>, r: RayV, acc: NearestV) -> NearestV
    decreases scene.len(),
{
    if scene.len() == 0 {
        acc
    } else {
        nearest_from(scene.drop_first(), r, nearest_step(acc, scene[0], r))
    }
}

/// The nearest hit over a whole scene.
pub open spec fn nearest_s(scene: Seq<SphereV>, r: RayV) -> NearestV {
    nearest_from(scene, r, no_hit_v())
}

/// The scene's spheres, as their models.
pub open spec fn scene_v(spheres: Seq<Sphere>) -> Seq<SphereV> {
    spheres.map_values(|s: Sphere| s@)
}

/// Every sphere within the world bounds.
pub open spec fn scene_ok(scene: Seq<SphereV>) -> bool {
    forall|i: int| 0 <= i < scene.len() ==> sphere_ok(#[trigger] scene[i])
}

/// Every sphere with a positive radius, so that each can be shaded.
pub open spec fn scene_shadeable(scene: Seq<SphereV>) -> bool {
    forall|i: int| 0 <= i < scene.len() ==> 1 <= (#[trigger] scene[i]).radius
}

/// `i` indexes the winning sphere of a scan: a hit at the reported
/// distance, with every earlier-listed hit strictly farther.
pub open spec fn nearest_witness(scene: Seq<SphereV>, r: RayV, i: int, d: int, sp: SphereV) -> bool {
    0 <= i < scene.len() && hit_s(scene[i], r) && dist_s(scene[i], r) == d && sp == scene[i]
        && (forall|k: int|
        0 <= k < i && hit_s(#[trigger] scene[k], r) ==> d < dist_s(scene[k], r))
}

/// A hit of a well-formed query lies within the distance bound.
pub proof fn lemma_dist_bound(s: SphereV, r: RayV)
    requires
        sphere_ok(s),
        ray_ok(r),
    ensures
        0 <= dist_s(s, r) <= DIST_BOUND as int,
{
    lemma_dot_bound(r.direction, isect_v(s, r), 0x40000, 0x1_0000_0000, 0xC_0000_0000);
    let disc = crate::sphere::isect_disc(s, r);
    if disc >= 0 {
        assert(disc * (ONE as int) >= 0) by (nonlinear_arith)
            requires
                disc >= 0 && ONE as int == 65536;
        crate::fx::lemma_isqrt_s(disc * (ONE as int));
    } else {
        assert(disc * (ONE as int) < 1) by (nonlinear_arith)
            requires
                disc < 0 && ONE as int == 65536;
        assert(crate::fx::isqrt_s(disc * (ONE as int)) == 0);
    }
}

/// The linear scan for the nearest intersection. The result is the fold of
/// `nearest_step` over the scene; when something was found, some index
/// witnesses a nearest, earliest-listed hit, and no hit in the scene is
/// nearer.
pub fn get_nearest(spheres: &Vec<Sphere>, ray: Ray) -> (res: (bool, i64, Sphere))
    requires
        scene_ok(scene_v(spheres@)),
        ray_ok(ray@),
    ensures
        (NearestV { found: res.0, distance: res.1 as int, sphere: res.2@ }) == nearest_s(
            scene_v(spheres@),
            ray@,
        ),
        res.0 == (exists|i: int|
            0 <= i < spheres@.len() && hit_s(#[trigger] scene_v(spheres@)[i], ray@)),
        res.0 ==> (exists|i: int|
            #[trigger] nearest_witness(scene_v(spheres@), ray@, i, res.1 as int, res.2@)),
        res.0 ==> (forall|k: int|
            0 <= k < spheres@.len() && hit_s(#[trigger] scene_v(spheres@)[k], ray@)
                ==> res.1 as int <= dist_s(scene_v(spheres@)[k], ray@)),
        !res.0 ==> res.1 == FAR && res.2@ == no_hit_v().sphere,
{
    let ghost sv = scene_v(spheres@);
    let mut nearest_distance: i64 = FAR;
    let mut nearest_sphere = Sphere::new(Point3::zero(), 0);
    let mut is_intersection = false;
    let mut idx: usize = 0;
    let ghost mut best: int = 0;
    proof {
        assert(sv.skip(0) =~= sv);
    }
    while idx < spheres.len()
        invariant
            scene_ok(sv),
            ray_ok(ray@),
            sv == scene_v(spheres@),
            sv.len() == spheres@.len(),
            0 <= idx <= sv.len(),
            is_intersection == (exists|i: int| 0 <= i < idx && hit_s(#[trigger] sv[i], ray@)),
            is_intersection ==> nearest_witness(
                sv,
                ray@,
                best,
                nearest_distance as int,
                nearest_sphere@,
            ) && best < idx,
            is_intersection ==> (forall|k: int|
                0 <= k < idx && hit_s(#[trigger] sv[k], ray@) ==> nearest_distance as int <= dist_s(
                    sv[k],
                    ray@,
                )),
            !is_intersection ==> nearest_distance == FAR && nearest_sphere@ == no_hit_v().sphere,
            nearest_s(sv, ray@) == nearest_from(
                sv.skip(idx as int),
                ray@,
                NearestV {
                    found: is_intersection,
                    distance: nearest_distance as int,
                    sphere: nearest_sphere@,
                },
            ),
        decreases spheres.len() - idx,
    {
        let sphere = spheres[idx];
        proof {
            assert(sv[idx as int] == sphere@);
            lemma_dist_bound(sphere@, ray@);
        }
        let (has_intersection, distance) = sphere.intersect(ray);
        proof {
            assert(sv.skip(idx as int)[0] == sv[idx as int]);
            assert(sv.skip(idx as int).drop_first() =~= sv.skip(idx as int + 1));
        }
        if has_intersection && distance < nearest_distance {
            nearest_distance = distance;
            nearest_sphere = sphere;
            is_intersection = true;
            proof {
                best = idx as int;
            }
        }
        idx = idx + 1;
    }
    proof {
        assert(sv.skip(sv.len() as int).len() == 0);
    }
    (is_intersection, nearest_distance, nearest_sphere)
}

/// The point a hit distance along a ray.
pub open spec fn shade_point_s(ray: RayV, distance: int) -> Point3V {
    p3_add_v(ray.origin, v3_scale(ray.direction, distance))
}

/// The squared distance from the hit point to the light.
pub open spec fn shade_lsq_s(ray: RayV, distance: int, light: Point3V) -> int {
    let lv = p3_sub(light, shade_point_s(ray, distance));
    dot_s(lv, lv)
}

/// The cosine term before clamping: the normalised light vector against
/// the surface normal.
pub open spec fn shade_cos_s(ray: RayV, distance: int, sphere: SphereV, light: Point3V) -> int {
    let ip = shade_point_s(ray, distance);
    let lv = p3_sub(light, ip);
    dot_s(v3_normalize(lv), normal_s(sphere, ip))
}

/// The shading is defined when the hit point lies near the sphere's
/// surface (within four radii on each axis, which every true hit point
/// satisfies) and the light does not sit exactly on it.
pub open spec fn shade_defined_s(ray: RayV, distance: int, sphere: SphereV, light: Point3V) -> bool {
    let rv = p3_sub(shade_point_s(ray, distance), sphere.centre);
    -(4 * sphere.radius) <= rv.x <= 4 * sphere.radius && -(4 * sphere.radius) <= rv.y <= 4
        * sphere.radius && -(4 * sphere.radius) <= rv.z <= 4 * sphere.radius && 1 <= shade_lsq_s(
        ray,
        distance,
        light,
    )
}

/// The unclamped radiance: `(1/pi) * cos * intensity / distance_squared`,
/// with a negative cosine clamped to zero first.
pub open spec fn shade_raw_s(
    ray: RayV,
    distance: int,
    sphere: SphereV,
    light: Point3V,
    intensity: int,
) -> int {
    let cos0 = shade_cos_s(ray, distance, sphere, light);
    let cos = if cos0 < 0 {
        0
    } else {
        cos0
    };
    fdiv_s(fmul_s(fmul_s(INV_PI as int, cos), intensity), shade_lsq_s(ray, distance, light))
}

/// The shaded radiance of a hit: the raw radiance saturated at `MAX_OUT`,
/// or background (zero) where the shading is degenerate.
pub open spec fn shade_s(
    ray: RayV,
    distance: int,
    sphere: SphereV,
    light: Point3V,
    intensity: int,
) -> int {
    if !shade_defined_s(ray, distance, sphere, light) {
        0
    } else {
        let raw = shade_raw_s(ray, distance, sphere, light, intensity);
        if raw > MAX_OUT as int {
            MAX_OUT as int
        } else {
            raw
        }
    }
}

/// A surface point squarely facing the light reproduces the bare
/// inverse-square law: with the cosine term exactly one, the radiance is
/// `(1/pi) * intensity / distance_squared`, saturated at the maximum.
pub proof fn lemma_shade_facing(
    ray: RayV,
    distance: int,
    sphere: SphereV,
    light: Point3V,
    intensity: int,
)
    requires
        shade_defined_s(ray, distance, sphere, light),
        shade_cos_s(ray, distance, sphere, light) == ONE as int,
    ensures
        shade_s(ray, distance, sphere, light, intensity) == if fdiv_s(
            fmul_s(INV_PI as int, intensity),
            shade_lsq_s(ray, distance, light),
        ) > MAX_OUT as int {
            MAX_OUT as int
        } else {
            fdiv_s(fmul_s(INV_PI as int, intensity), shade_lsq_s(ray, distance, light))
        },
{
    assert(ONE == 65536);
    assert(fmul_s(INV_PI as int, ONE as int) == INV_PI as int) by {
        assert((INV_PI as int) * (ONE as int) == 65536 * 20860);
        lemma_div_multiples_vanish(20860, 65536);
    }
}

/// A surface point facing away from the light is not illuminated at all:
/// a non-positive cosine yields exactly zero, not negative light.
pub proof fn lemma_shade_away(
    ray: RayV,
    distance: int,
    sphere: SphereV,
    light: Point3V,
    intensity: int,
)
    requires
        shade_defined_s(ray, distance, sphere, light),
        shade_cos_s(ray, distance, sphere, light) <= 0,
    ensures
        shade_s(ray, distance, sphere, light, intensity) == 0,
{
    assert(ONE == 65536);
    let lsq = shade_lsq_s(ray, distance, light);
    assert(fmul_s(INV_PI as int, 0) == 0) by {
        assert((INV_PI as int) * 0 == 0);
        lemma_div_of0(ONE as int);
    }
    assert(fmul_s(0, intensity) == 0) by {
        assert(0 * intensity == 0) by (nonlinear_arith);
        lemma_div_of0(ONE as int);
    }
    assert(fdiv_s(0, lsq) == 0) by {
        assert(0 * (ONE as int) == 0) by (nonlinear_arith);
        lemma_div_of0(lsq);
    }
}

/// Saturation: radiance beyond the output range is clamped exactly to the
/// maximum, never wrapped or left unclamped.
pub proof fn lemma_shade_saturates(
    ray: RayV,
    distance: int,
    sphere: SphereV,
    light: Point3V,
    intensity: int,
)
    requires
        shade_defined_s(ray, distance, sphere, light),
        shade_raw_s(ray, distance, sphere, light, intensity) >= MAX_OUT as int,
    ensures
        shade_s(ray, distance, sphere, light, intensity) == MAX_OUT as int,
{
}

/// One normal component: a radius vector component within four radii,
/// divided by the radius, stays within four units.
proof fn lemma_normal_comp_bounded(c: int, rad: int)
    requires
        1 <= rad,
        -(4 * rad) <= c <= 4 * rad,
    ensures
        -0x40000 <= fdiv_s(c, rad) <= 0x40000,
{
    assert(ONE == 65536);
    assert(-(0x40000int * rad) <= c * 65536 && c * 65536 <= 0x40000int * rad) by (nonlinear_arith)
        requires
            -(4 * rad) <= c <= 4 * rad && 1 <= rad;
    lemma_div_mag(c * 65536, rad, 0x40000);
    assert(c * (ONE as int) == c * 65536);
}

/// Diffuse shading of one hit: the hit point, its surface normal, the
/// clamped cosine against the light direction, inverse-square falloff, and
/// the final saturation to the output range.
pub fn shade(ray: Ray, distance: i64, sphere: Sphere, light_pos: Point3, light_intensity: i64) -> (r:
    i64)
    requires
        ray_ok(ray@),
        sphere_ok(sphere@),
        1 <= sphere@.radius,
        0 <= distance <= DIST_BOUND,
        p3_in_world(light_pos@),
        0 <= light_intensity <= MAX_LIGHT,
    ensures
        r as int == shade_s(ray@, distance as int, sphere@, light_pos@, light_intensity as int),
        0 <= r <= MAX_OUT,
{
    proof {
        lemma_fmul_bound(
            ray@.direction.x,
            distance as int,
            0x40000,
            0xC_0000_0000,
            0x30_0000_0000,
        );
        lemma_fmul_bound(
            ray@.direction.y,
            distance as int,
            0x40000,
            0xC_0000_0000,
            0x30_0000_0000,
        );
        lemma_fmul_bound(
            ray@.direction.z,
            distance as int,
            0x40000,
            0xC_0000_0000,
            0x30_0000_0000,
        );
    }
    let step = ray.direction.mul(distance);
    let ip = ray.origin.add(step);
    let rv = ip.sub(sphere.centre);
    let r4 = sphere.radius * 4;
    if rv.x < -r4 || rv.x > r4 || rv.y < -r4 || rv.y > r4 || rv.z < -r4 || rv.z > r4 {
        return 0;
    }
    proof {
        lemma_normal_comp_bounded(rv@.x, sphere@.radius);
        lemma_normal_comp_bounded(rv@.y, sphere@.radius);
        lemma_normal_comp_bounded(rv@.z, sphere@.radius);
    }
    let n = rv.div(sphere.radius);
    let lv = light_pos.sub(ip);
    proof {
        lemma_dot_bound(lv@, lv@, 0x4_0000_0000, 0x4_0000_0000, 0x30_0000_0000_0000);
    }
    let lsq = lv.length_squared();
    if lsq < 1 {
        return 0;
    }
    proof {
        lemma_normalize_bounded(lv@);
    }
    let nlv = lv.normalised();
    proof {
        lemma_dot_bound(nlv@, n@, 0x40000, 0x40000, 0x30_0000);
    }
    let mut cosine = nlv.dot(n);
    if cosine < 0 {
        cosine = 0;
    }
    proof {
        lemma_fmul_bound(INV_PI as int, cosine as int, 0x8000, 0x30_0000, 0x18_0000);
    }
    let t1 = fmul(INV_PI, cosine);
    proof {
        lemma_fmul_bound(t1 as int, light_intensity as int, 0x18_0000, 0x2_0000_0000, 0x30_0000_0000);
        assert((INV_PI as int) * (cosine as int) >= 0) by (nonlinear_arith)
            requires
                cosine as int >= 0 && INV_PI as int == 20860;
        lemma_div_pos_is_pos((INV_PI as int) * (cosine as int), ONE as int);
        assert((t1 as int) * (light_intensity as int) >= 0) by (nonlinear_arith)
            requires
                t1 as int >= 0 && light_intensity as int >= 0;
        lemma_div_pos_is_pos((t1 as int) * (light_intensity as int), ONE as int);
    }
    let t2 = fmul(t1, light_intensity);
    proof {
        assert((t2 as int) * (ONE as int) >= 0) by (nonlinear_arith)
            requires
                t2 as int >= 0 && ONE as int == 65536;
        lemma_div_pos_is_pos((t2 as int) * (ONE as int), lsq as int);
    }
    let raw = fdiv(t2, lsq);
    if raw > MAX_OUT {
        MAX_OUT
    } else {
        raw
    }
}

/// The whole per-pixel computation, from a pixel coordinate and the scene
/// to the shaded 8-bit intensity.
pub open spec fn render_pixel_s(
    x: int,
    y: int,
    width: int,
    height: int,
    cam: CameraV,
    scene: Seq<SphereV>,
    light: Point3V,
    intensity: int,
) -> int {
    let u = u_of_pixel(x, width, height);
    let v = v_of_pixel(y, height);
    let t = m3_mul_v(cam.view, v3_normalize(camera_local_dir(cam, u, v)));
    if lsq_s(t) < 1 {
        0
    } else {
        let ray = camera_ray_s(cam, u, v);
        let near = nearest_s(scene, ray);
        if !near.found {
            0
        } else {
            shade_s(ray, near.distance, near.sphere, light, intensity) / 65536
        }
    }
}

/// One pixel of the render: build the camera ray, scan the scene for the
/// nearest hit, shade it, and quantise to the 8-bit output. Misses and
/// degenerate pixels are background (zero).
pub fn render_pixel(
    x: u32,
    y: u32,
    width: u32,
    height: u32,
    camera: &Camera,
    spheres: &Vec<Sphere>,
    light_pos: Point3,
    light_intensity: i64,
) -> (p: u8)
    requires
        1 <= height,
        x < width,
        y < height,
        width <= 16 * height,
        width <= 0x100000,
        camera_ok(camera@),
        scene_ok(scene_v(spheres@)),
        scene_shadeable(scene_v(spheres@)),
        p3_in_world(light_pos@),
        0 <= light_intensity <= MAX_LIGHT,
    ensures
        p as int == render_pixel_s(
            x as int,
            y as int,
            width as int,
            height as int,
            camera@,
            scene_v(spheres@),
            light_pos@,
            light_intensity as int,
        ),
{
    let ghost sv = scene_v(spheres@);
    let (u, v) = pixel_to_uv(x, y, width, height);
    let local = Vector3::new(u, v, camera.fov_factor);
    proof {
        lemma_camera_local_nonzero(camera@, u as int, v as int);
        lemma_normalize_bounded(local@);
    }
    let nd = local.normalised();
    proof {
        lemma_dot_bound(camera@.view.r0, nd@, 0x40000, 0x40000, 0x30_0000);
        lemma_dot_bound(camera@.view.r1, nd@, 0x40000, 0x40000, 0x30_0000);
        lemma_dot_bound(camera@.view.r2, nd@, 0x40000, 0x40000, 0x30_0000);
    }
    let t = camera.view.mul_vector(nd);
    let tl = t.length_squared();
    if tl < 1 {
        return 0;
    }
    let camera_ray = camera.get_camera_ray(u, v);
    let (has_intersection, distance, sphere) = get_nearest(spheres, camera_ray);
    if !has_intersection {
        return 0;
    }
    proof {
        let i = choose|i: int|
            nearest_witness(sv, camera_ray@, i, distance as int, sphere@);
        lemma_dist_bound(sv[i], camera_ray@);
    }
    let radiance = shade(camera_ray, distance, sphere, light_pos, light_intensity);
    proof {
        lemma_div_is_ordered(radiance as int, 255int * 65536, 65536);
        lemma_div_pos_is_pos(radiance as int, 65536);
        assert((255 * 65536) / 65536 == 255) by {
            lemma_div_multiples_vanish(255, 65536);
        }
    }
    let q = ((radiance as u64) / 65536u64) as u8;
    q
}

} // verus!
