use raytracer::fx::{fdiv, fmul, fsqrt, isqrt, ONE};
use raytracer::matrix::Matrix3;
use raytracer::vector::Vector3;

#[test]
fn matrix3_identity_mulitplication() {
    let id = Matrix3::identity();
    assert_eq!(id.mul(id), id);
}

#[test]
fn matrix3_scale_mulitplication() {
    let matrix_two = Matrix3::scale(2 * ONE);
    assert_eq!(matrix_two.mul(matrix_two), Matrix3::scale(4 * ONE));
}

#[test]
fn matrix3_scaler_mulitplication() {
    let matrix_two = Matrix3::scale(2 * ONE);
    assert_eq!(matrix_two.mul_scalar(2 * ONE), Matrix3::scale(4 * ONE));
}

#[test]
fn matrix3_vector3_identity_multiplication() {
    let vec = Vector3::unit_x();
    let identity = Matrix3::identity();

    assert_eq!(identity.mul_vector(vec), vec);

    assert_eq!(identity.mul_scalar(2 * ONE).mul_vector(vec), vec.mul(2 * ONE));
}

#[test]
fn vector3_length() {
    let vec = Vector3::new(ONE, 0, 0);
    assert_eq!(vec.length(), ONE);
}

#[test]
fn vector3_normalise() {
    let mut vec = Vector3::new(3 * ONE, 3 * ONE, 3 * ONE);
    vec.normalise();
    // The normalised vector has length one up to fixed-point rounding.
    let lsq = vec.length_squared();
    assert!((lsq - ONE).abs() <= 8);
}

#[test]
fn vector3_dot_matches_length() {
    let vec = Vector3::new(ONE, ONE, ONE);
    assert_eq!(vec.dot(vec), vec.length_squared());
}

#[test]
fn unit_vectors_have_unit_length() {
    assert_eq!(Vector3::unit_x().length(), ONE);
    assert_eq!(Vector3::unit_y().length(), ONE);
    assert_eq!(Vector3::unit_z().length(), ONE);
    // A skew vector whose squared length is exactly one also has length
    // exactly one.
    let v = Vector3::new(ONE / 2, ONE / 2, 46341);
    assert_eq!(v.length_squared(), ONE);
    assert_eq!(v.length(), ONE);
}

#[test]
fn fixed_point_products_are_exact() {
    assert_eq!(fmul(2 * ONE, 3 * ONE), 6 * ONE);
    assert_eq!(fmul(-3 * ONE, 2 * ONE), -6 * ONE);
    assert_eq!(fmul(ONE / 2, ONE / 2), ONE / 4);
    assert_eq!(fdiv(ONE, 2 * ONE), ONE / 2);
    assert_eq!(fdiv(-ONE, 2 * ONE), -ONE / 2);
    // A negative divisor follows real division's sign rule.
    assert_eq!(fdiv(ONE, -2 * ONE), -ONE / 2);
    assert_eq!(fdiv(-ONE, -2 * ONE), ONE / 2);
    assert_eq!(fdiv(6 * ONE, -3 * ONE), -2 * ONE);
}

#[test]
fn division_by_negative_scalars() {
    let v = Vector3::new(2 * ONE, -4 * ONE, 6 * ONE);
    assert_eq!(v.div(-ONE), v.neg());
    assert_eq!(v.div(-2 * ONE), Vector3::new(-ONE, 2 * ONE, -3 * ONE));
    let mut w = v;
    w.div_assign(-2 * ONE);
    assert_eq!(w, Vector3::new(-ONE, 2 * ONE, -3 * ONE));
    let m = Matrix3::scale(4 * ONE);
    assert_eq!(m.div(-2 * ONE), Matrix3::scale(-2 * ONE));
    let mut n = m;
    n.div_assign(-ONE);
    assert_eq!(n, Matrix3::scale(-4 * ONE));
}

#[test]
fn fixed_point_square_roots() {
    assert_eq!(isqrt(0), 0);
    assert_eq!(isqrt(10), 3);
    assert_eq!(isqrt(144), 12);
    assert_eq!(fsqrt(4 * ONE), 2 * ONE);
    assert_eq!(fsqrt(ONE), ONE);
    assert_eq!(fsqrt(0), 0);
}

#[test]
fn vector_arithmetic() {
    let a = Vector3::new(ONE, 2 * ONE, 3 * ONE);
    let b = Vector3::new(4 * ONE, 5 * ONE, 6 * ONE);
    assert_eq!(a.add(b), Vector3::new(5 * ONE, 7 * ONE, 9 * ONE));
    assert_eq!(b.sub(a), Vector3::new(3 * ONE, 3 * ONE, 3 * ONE));
    assert_eq!(a.neg(), Vector3::new(-ONE, -2 * ONE, -3 * ONE));
    assert_eq!(a.div(2 * ONE), Vector3::new(ONE / 2, ONE, ONE + ONE / 2));
    let mut c = a;
    c.add_assign(b);
    assert_eq!(c, Vector3::new(5 * ONE, 7 * ONE, 9 * ONE));
    c.sub_assign(b);
    assert_eq!(c, a);
    c.mul_assign(2 * ONE);
    assert_eq!(c, Vector3::new(2 * ONE, 4 * ONE, 6 * ONE));
    c.div_assign(2 * ONE);
    assert_eq!(c, a);
    // dot((1,2,3),(4,5,6)) = 4 + 10 + 18 = 32
    assert_eq!(a.dot(b), 32 * ONE);
}

#[test]
fn matrix_negation_and_division() {
    let m = Matrix3::scale(4 * ONE);
    assert_eq!(m.neg(), Matrix3::scale(-4 * ONE));
    assert_eq!(m.div(2 * ONE), Matrix3::scale(2 * ONE));
    let mut n = m;
    n.div_assign(2 * ONE);
    assert_eq!(n, Matrix3::scale(2 * ONE));
    n.mul_assign(2 * ONE);
    assert_eq!(n, m);
    // Scaling and dividing by the same factor round-trips (here exactly).
    assert_eq!(m.mul_scalar(3 * ONE).div(3 * ONE), m);
}
