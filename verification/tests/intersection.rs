use raytracer::fx::ONE;
use raytracer::point::Point3;
use raytracer::ray::Ray;
use raytracer::render::{get_nearest, FAR};
use raytracer::sphere::Sphere;
use raytracer::vector::Vector3;

fn unit_z_ray(origin: Point3) -> Ray {
    Ray::new(origin, Vector3::unit_z())
}

#[test]
fn head_on_hit_at_exact_distance() {
    // Origin outside, aimed straight at the centre: the hit distance is
    // distance(origin, centre) - radius, exactly.
    let sphere = Sphere::new(Point3::new(0, 0, 3 * ONE), ONE);
    let ray = unit_z_ray(Point3::zero());
    let (hit, distance) = sphere.intersect(ray);
    assert!(hit);
    assert_eq!(distance, 2 * ONE);
}

#[test]
fn outside_pointing_away_misses() {
    // Origin strictly outside, aimed away: never an intersection.
    let sphere = Sphere::new(Point3::new(0, 0, -3 * ONE), ONE);
    let ray = unit_z_ray(Point3::zero());
    let (hit, distance) = sphere.intersect(ray);
    assert!(!hit);
    assert_eq!(distance, 0);
}

#[test]
fn surface_origin_hits_at_zero() {
    // Origin exactly on the surface, pointing outward: a hit at distance
    // zero, clamped, never negative.
    let sphere = Sphere::new(Point3::new(0, 0, 2 * ONE), ONE);
    let ray = unit_z_ray(Point3::new(0, 0, 3 * ONE));
    let (hit, distance) = sphere.intersect(ray);
    assert!(hit);
    assert_eq!(distance, 0);
}

#[test]
fn origin_inside_hits_at_zero() {
    let sphere = Sphere::new(Point3::new(0, 0, 0), 2 * ONE);
    let ray = unit_z_ray(Point3::zero());
    let (hit, distance) = sphere.intersect(ray);
    assert!(hit);
    assert_eq!(distance, 0);
}

#[test]
fn tangent_ray_grazes() {
    // A ray along +z offset exactly one radius to the side: discriminant
    // zero, still counted as a hit.
    let sphere = Sphere::new(Point3::new(0, 0, 3 * ONE), ONE);
    let ray = unit_z_ray(Point3::new(ONE, 0, 0));
    let (hit, distance) = sphere.intersect(ray);
    assert!(hit);
    assert_eq!(distance, 3 * ONE);
}

#[test]
fn nearest_of_two_overlapping_spheres() {
    // Both spheres lie on the ray; the nearer hit wins regardless of order.
    let far_sphere = Sphere::new(Point3::new(0, 0, 4 * ONE), ONE);
    let near_sphere = Sphere::new(Point3::new(0, 0, 3 * ONE), ONE);
    let ray = unit_z_ray(Point3::zero());

    let scene = vec![far_sphere, near_sphere];
    let (hit, distance, winner) = get_nearest(&scene, ray);
    assert!(hit);
    assert_eq!(distance, 2 * ONE);
    assert_eq!(winner, near_sphere);

    let scene = vec![near_sphere, far_sphere];
    let (hit, distance, winner) = get_nearest(&scene, ray);
    assert!(hit);
    assert_eq!(distance, 2 * ONE);
    assert_eq!(winner, near_sphere);
}

#[test]
fn nearest_tie_takes_earliest_listed() {
    // Two distinct spheres hit at exactly the same distance: the one
    // listed first wins the tie.
    let small = Sphere::new(Point3::new(0, 0, 3 * ONE), ONE);
    let large = Sphere::new(Point3::new(0, 0, 5 * ONE), 3 * ONE);
    let ray = unit_z_ray(Point3::zero());

    let (hit, distance, winner) = get_nearest(&vec![small, large], ray);
    assert!(hit);
    assert_eq!(distance, 2 * ONE);
    assert_eq!(winner, small);

    let (hit, distance, winner) = get_nearest(&vec![large, small], ray);
    assert!(hit);
    assert_eq!(distance, 2 * ONE);
    assert_eq!(winner, large);
}

#[test]
fn nearest_of_empty_scene_misses() {
    let ray = unit_z_ray(Point3::zero());
    let (hit, distance, _) = get_nearest(&Vec::new(), ray);
    assert!(!hit);
    assert_eq!(distance, FAR);
}

#[test]
fn surface_normal_points_outward() {
    let sphere = Sphere::new(Point3::new(0, 0, 3 * ONE), ONE);
    let n = sphere.get_normal(Point3::new(0, 0, 2 * ONE));
    assert_eq!(n, Vector3::new(0, 0, -ONE));
    let n = sphere.get_normal(Point3::new(ONE, 0, 3 * ONE));
    assert_eq!(n, Vector3::new(ONE, 0, 0));
}
