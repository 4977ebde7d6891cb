//! A 3-by-3 fixed-point linear transform, used for camera orientation.
//!
//! Composition is row-by-column; applying the matrix to a vector or point
//! takes each row's dot product with the operand. Applying it to a ray
//! transforms origin and direction and re-normalises the direction, since a
//! scaling matrix would otherwise hand the intersection test a direction
//! that is not unit length.

use vstd::prelude::*;

verus! {

use crate::fx::fmul_s;
use crate::fx::lemma_scale_div_round_trip;
use crate::fx::fx_ok;
use crate::fx::ONE;
use crate::point::p3_ok;
use crate::point::Point3;
use crate::point::Point3V;
use crate::ray::Ray;
use crate::ray::RayV;
use crate::vector::dot_s;
use crate::vector::lsq_s;
use crate::vector::v3_normalize;
use crate::vector::v3_ok;
use crate::vector::Vector3;
use crate::vector::Vector3V;
use vstd::arithmetic::div_mod::lemma_div_multiples_vanish;

/// A 3-by-3 matrix of fixed-point entries, stored as three row vectors.
#[derive(Clone, Copy, Debug, PartialEq, Eq, Structural)]
pub struct Matrix3 {
    pub r0: Vector3,
    pub r1: Vector3,
    pub r2: Vector3,
}

/// The mathematical model of a matrix: its three rows.
pub ghost struct Matrix3V {
    pub r0: Vector3V,
    pub r1: Vector3V,
    pub r2: Vector3V,
}

impl View for Matrix3 {
    type V = Matrix3V;

    open spec fn view(&self) -> Matrix3V {
        Matrix3V { r0: self.r0@, r1: self.r1@, r2: self.r2@ }
    }
}

/// Every entry small enough for products and quotients.
pub open spec fn m3_ok(m: Matrix3V) -> bool {
    v3_ok(m.r0) && v3_ok(m.r1) && v3_ok(m.r2)
}

pub open spec fn m3_col0(m: Matrix3V) -> Vector3V {
    Vector3V { x: m.r0.x, y: m.r1.x, z: m.r2.x }
}

pub open spec fn m3_col1(m: Matrix3V) -> Vector3V {
    Vector3V { x: m.r0.y, y: m.r1.y, z: m.r2.y }
}

pub open spec fn m3_col2(m: Matrix3V) -> Vector3V {
    Vector3V { x: m.r0.z, y: m.r1.z, z: m.r2.z }
}

/// The matrix with `s` on the diagonal and zeros elsewhere.
pub open spec fn m3_scale_s(s: int) -> Matrix3V {
    Matrix3V {
        r0: Vector3V { x: s, y: 0, z: 0 },
        r1: Vector3V { x: 0, y: s, z: 0 },
        r2: Vector3V { x: 0, y: 0, z: s },
    }
}

/// The identity: the fixed-point unit on the diagonal.
pub open spec fn m3_identity_s() -> Matrix3V {
    m3_scale_s(65536)
}

/// Row-by-column composition.
pub open spec fn m3_mul_s(a: Matrix3V, b: Matrix3V) -> Matrix3V {
    Matrix3V {
        r0: Vector3V {
            x: dot_s(a.r0, m3_col0(b)),
            y: dot_s(a.r0, m3_col1(b)),
            z: dot_s(a.r0, m3_col2(b)),
        },
        r1: Vector3V {
            x: dot_s(a.r1, m3_col0(b)),
            y: dot_s(a.r1, m3_col1(b)),
            z: dot_s(a.r1, m3_col2(b)),
        },
        r2: Vector3V {
            x: dot_s(a.r2, m3_col0(b)),
            y: dot_s(a.r2, m3_col1(b)),
            z: dot_s(a.r2, m3_col2(b)),
        },
    }
}

/// The matrix applied to a vector: each row's dot product with it.
pub open spec fn m3_mul_v(m: Matrix3V, v: Vector3V) -> Vector3V {
    Vector3V { x: dot_s(m.r0, v), y: dot_s(m.r1, v), z: dot_s(m.r2, v) }
}

/// The matrix applied to a point, as the linear map of its coordinates.
pub open spec fn m3_mul_p(m: Matrix3V, p: Point3V) -> Point3V {
    let v = Vector3V { x: p.x, y: p.y, z: p.z };
    Point3V { x: dot_s(m.r0, v), y: dot_s(m.r1, v), z: dot_s(m.r2, v) }
}

/// The matrix applied entry by entry by a spec function of one entry.
pub open spec fn m3_neg_s(m: Matrix3V) -> Matrix3V {
    Matrix3V {
        r0: crate::vector::v3_neg(m.r0),
        r1: crate::vector::v3_neg(m.r1),
        r2: crate::vector::v3_neg(m.r2),
    }
}

pub open spec fn m3_smul_s(m: Matrix3V, s: int) -> Matrix3V {
    Matrix3V {
        r0: crate::vector::v3_scale(m.r0, s),
        r1: crate::vector::v3_scale(m.r1, s),
        r2: crate::vector::v3_scale(m.r2, s),
    }
}

pub open spec fn m3_sdiv_s(m: Matrix3V, s: int) -> Matrix3V {
    Matrix3V {
        r0: crate::vector::v3_div(m.r0, s),
        r1: crate::vector::v3_div(m.r1, s),
        r2: crate::vector::v3_div(m.r2, s),
    }
}

/// The matrix applied to a ray: both parts transformed, the direction
/// re-normalised.
pub open spec fn m3_mul_ray_s(m: Matrix3V, r: RayV) -> RayV {
    RayV { origin: m3_mul_p(m, r.origin), direction: v3_normalize(m3_mul_v(m, r.direction)) }
}

/// A dot product against a row with one unit entry picks out one component.
proof fn lemma_unit_entry(c1: int, c2: int, c3: int)
    ensures
        (65536 * c1 + 0 * c2 + 0 * c3) / (ONE as int) == c1,
        (0 * c1 + 65536 * c2 + 0 * c3) / (ONE as int) == c2,
        (0 * c1 + 0 * c2 + 65536 * c3) / (ONE as int) == c3,
        (c1 * 65536 + c2 * 0 + c3 * 0) / (ONE as int) == c1,
        (c1 * 0 + c2 * 65536 + c3 * 0) / (ONE as int) == c2,
        (c1 * 0 + c2 * 0 + c3 * 65536) / (ONE as int) == c3,
{
    assert(ONE == 65536);
    assert(0 * c1 == 0 && 0 * c2 == 0 && 0 * c3 == 0 && c1 * 0 == 0 && c2 * 0 == 0 && c3 * 0 == 0
        && c1 * 65536 == 65536 * c1 && c2 * 65536 == 65536 * c2 && c3 * 65536 == 65536 * c3)
        by (nonlinear_arith);
    lemma_div_multiples_vanish(c1, 65536);
    lemma_div_multiples_vanish(c2, 65536);
    lemma_div_multiples_vanish(c3, 65536);
}

/// The identity is a two-sided multiplicative identity: composing any
/// matrix with it on either side gives the matrix back, exactly.
pub proof fn lemma_matrix_identity(m: Matrix3V)
    ensures
        m3_mul_s(m3_identity_s(), m) == m,
        m3_mul_s(m, m3_identity_s()) == m,
{
    lemma_unit_entry(m.r0.x, m.r1.x, m.r2.x);
    lemma_unit_entry(m.r0.y, m.r1.y, m.r2.y);
    lemma_unit_entry(m.r0.z, m.r1.z, m.r2.z);
    lemma_unit_entry(m.r0.x, m.r0.y, m.r0.z);
    lemma_unit_entry(m.r1.x, m.r1.y, m.r1.z);
    lemma_unit_entry(m.r2.x, m.r2.y, m.r2.z);
}

/// Composing two uniform scalings scales by the fixed-point product of the
/// two factors.
pub proof fn lemma_scale_mul(a: int, b: int)
    ensures
        m3_mul_s(m3_scale_s(a), m3_scale_s(b)) == m3_scale_s(fmul_s(a, b)),
{
    assert(ONE == 65536);
    assert((a * b + 0 * 0 + 0 * 0) / 65536 == (a * b) / 65536) by (nonlinear_arith);
    assert((a * 0 + 0 * b + 0 * 0) / 65536 == 0 && (a * 0 + 0 * 0 + 0 * b) / 65536 == 0 && (0 * b
        + a * 0 + 0 * 0) / 65536 == 0 && (0 * 0 + a * 0 + 0 * b) / 65536 == 0 && (0 * b + 0 * 0 + a
        * 0) / 65536 == 0 && (0 * 0 + 0 * b + a * 0) / 65536 == 0) by (nonlinear_arith);
}

/// Dividing a matrix by the positive factor it was just scaled by returns
/// every entry up to rounding: never above the original entry, and below it
/// by at most `ONE / s + 1` — one unit in the last place once the factor is
/// a whole unit or more.
pub proof fn lemma_matrix_scale_div_round_trip(m: Matrix3V, s: int)
    requires
        1 <= s,
    ensures
        ({
            let rt = m3_sdiv_s(m3_smul_s(m, s), s);
            let e = 65535int / s + 1;
            m.r0.x - e <= rt.r0.x <= m.r0.x && m.r0.y - e <= rt.r0.y <= m.r0.y && m.r0.z - e
                <= rt.r0.z <= m.r0.z && m.r1.x - e <= rt.r1.x <= m.r1.x && m.r1.y - e <= rt.r1.y
                <= m.r1.y && m.r1.z - e <= rt.r1.z <= m.r1.z && m.r2.x - e <= rt.r2.x <= m.r2.x
                && m.r2.y - e <= rt.r2.y <= m.r2.y && m.r2.z - e <= rt.r2.z <= m.r2.z
        }),
{
    lemma_scale_div_round_trip(m.r0.x, s);
    lemma_scale_div_round_trip(m.r0.y, s);
    lemma_scale_div_round_trip(m.r0.z, s);
    lemma_scale_div_round_trip(m.r1.x, s);
    lemma_scale_div_round_trip(m.r1.y, s);
    lemma_scale_div_round_trip(m.r1.z, s);
    lemma_scale_div_round_trip(m.r2.x, s);
    lemma_scale_div_round_trip(m.r2.y, s);
    lemma_scale_div_round_trip(m.r2.z, s);
}

impl Matrix3 {
    /// The identity transform.
    pub fn identity() -> (r: Matrix3)
        ensures
            r@ == m3_identity_s(),
    {
        Matrix3::scale(ONE)
    }

    /// The uniform scaling by a fixed-point factor.
    pub fn scale(s: i64) -> (r: Matrix3)
        ensures
            r@ == m3_scale_s(s as int),
    {
        Matrix3 {
            r0: Vector3 { x: s, y: 0, z: 0 },
            r1: Vector3 { x: 0, y: s, z: 0 },
            r2: Vector3 { x: 0, y: 0, z: s },
        }
    }

    /// The entrywise negation.
    pub fn neg(self) -> (r: Matrix3)
        requires
            m3_ok(self@),
        ensures
            r@ == m3_neg_s(self@),
    {
        Matrix3 { r0: self.r0.neg(), r1: self.r1.neg(), r2: self.r2.neg() }
    }

    /// The entrywise scaling by a fixed-point scalar.
    pub fn mul_scalar(self, s: i64) -> (r: Matrix3)
        requires
            m3_ok(self@),
            fx_ok(s as int),
        ensures
            r@ == m3_smul_s(self@, s as int),
    {
        Matrix3 { r0: self.r0.mul(s), r1: self.r1.mul(s), r2: self.r2.mul(s) }
    }

    /// The entrywise division by a nonzero fixed-point scalar.
    pub fn div(self, s: i64) -> (r: Matrix3)
        requires
            m3_ok(self@),
            s != 0,
        ensures
            r@ == m3_sdiv_s(self@, s as int),
    {
        Matrix3 { r0: self.r0.div(s), r1: self.r1.div(s), r2: self.r2.div(s) }
    }

    /// In-place entrywise scaling by a fixed-point scalar.
    pub fn mul_assign(&mut self, s: i64)
        requires
            m3_ok(old(self)@),
            fx_ok(s as int),
        ensures
            final(self)@ == m3_smul_s(old(self)@, s as int),
    {
        let m = *self;
        *self = m.mul_scalar(s);
    }

    /// In-place entrywise division by a nonzero fixed-point scalar.
    pub fn div_assign(&mut self, s: i64)
        requires
            m3_ok(old(self)@),
            s != 0,
        ensures
            final(self)@ == m3_sdiv_s(old(self)@, s as int),
    {
        let m = *self;
        *self = m.div(s);
    }

    /// Row-by-column composition with another matrix.
    pub fn mul(self, other: Matrix3) -> (r: Matrix3)
        requires
            m3_ok(self@),
            m3_ok(other@),
        ensures
            r@ == m3_mul_s(self@, other@),
    {
        let c0 = Vector3 { x: other.r0.x, y: other.r1.x, z: other.r2.x };
        let c1 = Vector3 { x: other.r0.y, y: other.r1.y, z: other.r2.y };
        let c2 = Vector3 { x: other.r0.z, y: other.r1.z, z: other.r2.z };
        Matrix3 {
            r0: Vector3 { x: self.r0.dot(c0), y: self.r0.dot(c1), z: self.r0.dot(c2) },
            r1: Vector3 { x: self.r1.dot(c0), y: self.r1.dot(c1), z: self.r1.dot(c2) },
            r2: Vector3 { x: self.r2.dot(c0), y: self.r2.dot(c1), z: self.r2.dot(c2) },
        }
    }

    /// The matrix applied to a vector.
    pub fn mul_vector(self, v: Vector3) -> (r: Vector3)
        requires
            m3_ok(self@),
            v3_ok(v@),
        ensures
            r@ == m3_mul_v(self@, v@),
    {
        Vector3 { x: self.r0.dot(v), y: self.r1.dot(v), z: self.r2.dot(v) }
    }

    /// The matrix applied to a point.
    pub fn mul_point(self, p: Point3) -> (r: Point3)
        requires
            m3_ok(self@),
            p3_ok(p@),
        ensures
            r@ == m3_mul_p(self@, p@),
    {
        let v = Vector3 { x: p.x, y: p.y, z: p.z };
        Point3 { x: self.r0.dot(v), y: self.r1.dot(v), z: self.r2.dot(v) }
    }

    /// The matrix applied to a ray: origin and direction transformed, the
    /// direction re-normalised. The transformed direction must be small
    /// enough to normalise and must not collapse to zero.
    pub fn mul_ray(self, ray: Ray) -> (r: Ray)
        requires
            m3_ok(self@),
            p3_ok(ray@.origin),
            v3_ok(ray@.direction),
            v3_ok(m3_mul_v(self@, ray@.direction)),
            1 <= lsq_s(m3_mul_v(self@, ray@.direction)),
        ensures
            r@ == m3_mul_ray_s(self@, ray@),
    {
        Ray {
            origin: self.mul_point(ray.origin),
            direction: self.mul_vector(ray.direction).normalised(),
        }
    }
}

} // verus!
