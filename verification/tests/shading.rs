use raytracer::fx::ONE;
use raytracer::matrix::Matrix3;
use raytracer::point::Point3;
use raytracer::ray::Ray;
use raytracer::render::{
    get_nearest, pixel_to_uv, render_pixel, shade, Camera, INV_PI, MAX_LIGHT, MAX_OUT,
};
use raytracer::sphere::Sphere;
use raytracer::vector::Vector3;

fn camera_90() -> Camera {
    // A 90-degree field of view: 1 / tan(45 degrees) is exactly one.
    Camera::new(Matrix3::identity(), ONE)
}

fn facing_setup() -> (Ray, i64, Sphere) {
    // Hit point (0,0,1) on a sphere centred at (0,0,2): the normal there is
    // (0,0,-1), squarely facing a light at the origin one unit away.
    let ray = Ray::new(Point3::zero(), Vector3::unit_z());
    let sphere = Sphere::new(Point3::new(0, 0, 2 * ONE), ONE);
    (ray, ONE, sphere)
}

#[test]
fn shading_facing_light_is_inverse_square() {
    let (ray, distance, sphere) = facing_setup();
    // Cosine one, squared distance one: radiance is (1/pi) * intensity.
    let r = shade(ray, distance, sphere, Point3::zero(), ONE);
    assert_eq!(r, INV_PI);
    // Four times the distance squared divides the radiance by four:
    // light at (0,0,-1), so the squared distance is 4.
    let r = shade(ray, distance, sphere, Point3::new(0, 0, -ONE), 4 * ONE);
    assert_eq!(r, INV_PI);
}

#[test]
fn shading_facing_away_is_zero() {
    let (ray, distance, sphere) = facing_setup();
    // A light behind the surface: negative cosine, clamped to exactly zero.
    let r = shade(ray, distance, sphere, Point3::new(0, 0, 4 * ONE), 600 * ONE);
    assert_eq!(r, 0);
}

#[test]
fn shading_perpendicular_light_is_zero() {
    let (ray, distance, sphere) = facing_setup();
    // A light level with the surface point: cosine exactly zero.
    let r = shade(ray, distance, sphere, Point3::new(2 * ONE, 0, ONE), 600 * ONE);
    assert_eq!(r, 0);
}

#[test]
fn shading_saturates_at_maximum() {
    let (ray, distance, sphere) = facing_setup();
    let r = shade(ray, distance, sphere, Point3::zero(), MAX_LIGHT);
    assert_eq!(r, MAX_OUT);
}

#[test]
fn shading_light_on_surface_is_background() {
    let (ray, distance, sphere) = facing_setup();
    // The light exactly at the hit point: degenerate, rendered background.
    let r = shade(ray, distance, sphere, Point3::new(0, 0, ONE), 600 * ONE);
    assert_eq!(r, 0);
}

#[test]
fn pixel_mapping_is_exact() {
    // u = (width/height) * (2x/width - 1), v = 2y/height - 1.
    assert_eq!(pixel_to_uv(400, 0, 800, 800), (0, -ONE));
    assert_eq!(pixel_to_uv(0, 400, 800, 800), (-ONE, 0));
    assert_eq!(pixel_to_uv(799, 799, 800, 800), ((798 * ONE) / 800, (798 * ONE) / 800));
    // A 2:1 aspect ratio doubles the horizontal range.
    assert_eq!(pixel_to_uv(0, 0, 800, 400), (-2 * ONE, -ONE));
}

#[test]
fn camera_ray_down_the_axis() {
    let cam = camera_90();
    let ray = cam.get_camera_ray(0, 0);
    assert_eq!(ray, Ray::new(Point3::zero(), Vector3::unit_z()));
}

#[test]
fn camera_ray_is_normalised() {
    let cam = camera_90();
    let ray = cam.get_camera_ray(ONE, -ONE / 2);
    let lsq = ray.direction.length_squared();
    assert!((lsq - ONE).abs() <= 8);
}

#[test]
fn render_pixel_centre_of_sphere() {
    // Camera at the origin looking down +z, sphere of radius 1 at (0,0,3),
    // light at the origin with intensity 600: the centre pixel hits at
    // distance 2, faces the light squarely at squared distance 4, so the
    // radiance is (1/pi) * 600 / 4 = 47.74..., quantised to 47.
    let cam = camera_90();
    let scene = vec![Sphere::new(Point3::new(0, 0, 3 * ONE), ONE)];
    let p = render_pixel(400, 400, 800, 800, &cam, &scene, Point3::zero(), 600 * ONE);
    assert_eq!(p, 47);
}

#[test]
fn render_pixel_miss_is_background() {
    let cam = camera_90();
    let scene = vec![Sphere::new(Point3::new(0, 0, 3 * ONE), ONE)];
    let p = render_pixel(0, 0, 800, 800, &cam, &scene, Point3::zero(), 600 * ONE);
    assert_eq!(p, 0);
}

#[test]
fn render_pixel_saturates() {
    let cam = camera_90();
    let scene = vec![Sphere::new(Point3::new(0, 0, 3 * ONE), ONE)];
    let p = render_pixel(400, 400, 800, 800, &cam, &scene, Point3::new(0, 0, 2 * ONE - 256), MAX_LIGHT);
    assert_eq!(p, 255);
}

#[test]
fn silhouette_matches_analytic_projection() {
    // A sphere of radius 1 at (0,0,3) seen from the origin with a 90-degree
    // field of view at 800x800: a pixel hits exactly when its image-plane
    // coordinates satisfy u^2 + v^2 <= 1/8, a circle of radius
    // 400/(2*sqrt(2)) = 141.4 pixels about the centre. Fixed-point rounding
    // may move the boundary by a pixel or two; inside and outside the band
    // the silhouette must match exactly.
    let sphere = Sphere::new(Point3::new(0, 0, 3 * ONE), ONE);
    let scene = vec![sphere];
    let cam = camera_90();
    let inner: i64 = 139 * 139;
    let outer: i64 = 144 * 144;
    for y in 0u32..800 {
        for x in 0u32..800 {
            let (u, v) = pixel_to_uv(x, y, 800, 800);
            let ray = cam.get_camera_ray(u, v);
            let (hit, _, _) = get_nearest(&scene, ray);
            let dx = 2 * (x as i64) - 800;
            let dy = 2 * (y as i64) - 800;
            let rr = (dx * dx + dy * dy) / 4;
            if rr <= inner {
                assert!(hit, "pixel ({}, {}) inside the silhouette must hit", x, y);
            }
            if rr >= outer {
                assert!(!hit, "pixel ({}, {}) outside the silhouette must miss", x, y);
            }
        }
    }
}
