//! Free vectors with three fixed-point components.
//!
//! `Vector3V` is the mathematical model: the three components as unbounded
//! integers. Every executable operation is proved equal to a spec function
//! over that model, so chains of vector arithmetic have exact meaning.

use vstd::prelude::*;

verus! {

use crate::fx::fdiv;
use crate::fx::fdiv_s;
use crate::fx::floor_div_wide;
use crate::fx::fmul;
use crate::fx::fmul_s;
use crate::fx::fsqrt;
use crate::fx::fsqrt_s;
use crate::fx::fx_ok;
use crate::fx::is_sqrt;
use crate::fx::isqrt_s;
use crate::fx::lemma_div_mag;
use crate::fx::lemma_isqrt_s;
use crate::fx::ONE;
use vstd::arithmetic::div_mod::lemma_div_pos_is_pos;
use vstd::arithmetic::div_mod::lemma_fundamental_div_mod;
use vstd::arithmetic::div_mod::lemma_div_is_ordered;
use vstd::arithmetic::div_mod::lemma_mod_division_less_than_divisor;

/// A free vector; each component is a fixed-point scalar.
#[derive(Clone, Copy, Debug, PartialEq, Eq, Structural)]
pub struct Vector3 {
    pub x: i64,
    pub y: i64,
    pub z: i64,
}

/// The mathematical model of a vector: its components as integers.
pub ghost struct Vector3V {
    pub x: int,
    pub y: int,
    pub z: int,
}

impl View for Vector3 {
    type V = Vector3V;

    open spec fn view(&self) -> Vector3V {
        Vector3V { x: self.x as int, y: self.y as int, z: self.z as int }
    }
}

/// Every component small enough for products and quotients.
pub open spec fn v3_ok(v: Vector3V) -> bool {
    fx_ok(v.x) && fx_ok(v.y) && fx_ok(v.z)
}

pub open spec fn v3_zero() -> Vector3V {
    Vector3V { x: 0, y: 0, z: 0 }
}

pub open spec fn v3_add(a: Vector3V, b: Vector3V) -> Vector3V {
    Vector3V { x: a.x + b.x, y: a.y + b.y, z: a.z + b.z }
}

pub open spec fn v3_sub(a: Vector3V, b: Vector3V) -> Vector3V {
    Vector3V { x: a.x - b.x, y: a.y - b.y, z: a.z - b.z }
}

pub open spec fn v3_neg(a: Vector3V) -> Vector3V {
    Vector3V { x: -a.x, y: -a.y, z: -a.z }
}

/// Scaling by a fixed-point scalar, component by component.
pub open spec fn v3_scale(a: Vector3V, s: int) -> Vector3V {
    Vector3V { x: fmul_s(a.x, s), y: fmul_s(a.y, s), z: fmul_s(a.z, s) }
}

/// Division by a nonzero fixed-point scalar, component by component.
pub open spec fn v3_div(a: Vector3V, s: int) -> Vector3V {
    Vector3V { x: fdiv_s(a.x, s), y: fdiv_s(a.y, s), z: fdiv_s(a.z, s) }
}

/// The unscaled sum of the component products.
pub open spec fn dot_raw(a: Vector3V, b: Vector3V) -> int {
    a.x * b.x + a.y * b.y + a.z * b.z
}

/// The fixed-point dot product: the raw sum rescaled by `ONE`.
pub open spec fn dot_s(a: Vector3V, b: Vector3V) -> int {
    dot_raw(a, b) / (ONE as int)
}

/// The fixed-point squared length: the dot product of a vector with itself.
pub open spec fn lsq_s(v: Vector3V) -> int {
    dot_s(v, v)
}

/// The fixed-point length: the square root of the squared length.
pub open spec fn len_s(v: Vector3V) -> int {
    fsqrt_s(lsq_s(v))
}

/// The normalised vector: each component divided by the length.
pub open spec fn v3_normalize(v: Vector3V) -> Vector3V {
    v3_div(v, len_s(v))
}

/// The dot product of bounded vectors is bounded: componentwise bounds
/// `ma`, `mb` with `3 * ma * mb <= m * ONE` give `|dot| <= m`.
pub proof fn lemma_dot_bound(a: Vector3V, b: Vector3V, ma: int, mb: int, m: int)
    requires
        0 <= ma,
        0 <= mb,
        -ma <= a.x <= ma,
        -ma <= a.y <= ma,
        -ma <= a.z <= ma,
        -mb <= b.x <= mb,
        -mb <= b.y <= mb,
        -mb <= b.z <= mb,
        0 <= m,
        3 * ma * mb <= m * 65536,
    ensures
        -m <= dot_s(a, b) <= m,
{
    assert(ONE == 65536);
    assert(-(m * (ONE as int)) <= dot_raw(a, b) && dot_raw(a, b) <= m * (ONE as int))
        by (nonlinear_arith)
        requires
            0 <= ma && 0 <= mb && -ma <= a.x <= ma && -ma <= a.y <= ma && -ma <= a.z <= ma && -mb
                <= b.x <= mb && -mb <= b.y <= mb && -mb <= b.z <= mb && 3 * ma * mb <= m * 65536
                && ONE as int == 65536;
    lemma_div_mag(dot_raw(a, b), ONE as int, m);
}

/// A vector's dot product with itself is non-negative.
pub proof fn lemma_dot_self_nonneg(v: Vector3V)
    ensures
        0 <= dot_s(v, v),
{
    assert(0 <= dot_raw(v, v)) by (nonlinear_arith);
    lemma_div_pos_is_pos(dot_raw(v, v), ONE as int);
}

/// The squared length is exactly the dot product of the vector with itself.
pub proof fn lemma_length_squared_is_dot(v: Vector3V)
    ensures
        lsq_s(v) == dot_s(v, v),
{
}

/// A unit vector has length exactly one: whenever the squared length is the
/// fixed-point unit, so is the length.
pub proof fn lemma_unit_vector_length(v: Vector3V)
    requires
        lsq_s(v) == ONE as int,
    ensures
        len_s(v) == ONE as int,
{
    assert(ONE == 65536);
    crate::fx::lemma_isqrt_square(65536);
    assert((ONE as int) * (ONE as int) == 65536 * 65536);
}

/// A nonzero bounded vector normalises to components within four units.
pub proof fn lemma_normalize_bounded(v: Vector3V)
    requires
        v3_ok(v),
        1 <= lsq_s(v),
    ensures
        1 <= len_s(v),
        -0x40000 <= v3_normalize(v).x <= 0x40000,
        -0x40000 <= v3_normalize(v).y <= 0x40000,
        -0x40000 <= v3_normalize(v).z <= 0x40000,
{
    let raw = dot_raw(v, v);
    let lsq = lsq_s(v);
    let n = lsq * (ONE as int);
    let l = len_s(v);
    assert(ONE == 65536);
    lemma_fundamental_div_mod(raw, 65536);
    assert(raw / (ONE as int) == raw / 65536);
    lemma_isqrt_s(n);
    assert(l == isqrt_s(n));
    assert(1 <= l && l * l <= n && n < (l + 1) * (l + 1)) by (nonlinear_arith)
        requires
            is_sqrt(n, l) && n == lsq * 65536 && 1 <= lsq;
    assert(v.x * v.x <= raw && v.y * v.y <= raw && v.z * v.z <= raw) by (nonlinear_arith)
        requires
            raw == v.x * v.x + v.y * v.y + v.z * v.z;
    lemma_normalize_comp(v.x, raw, lsq, l);
    lemma_normalize_comp(v.y, raw, lsq, l);
    lemma_normalize_comp(v.z, raw, lsq, l);
}

/// One squared term decomposed by its division by the length.
proof fn lemma_square_decompose(a: int, l: int, q: int, r: int)
    requires
        a == l * q + r,
    ensures
        a * a == l * l * (q * q) + 2 * l * (q * r) + r * r,
{
    assert(a * a == l * l * (q * q) + 2 * l * (q * r) + r * r) by (nonlinear_arith)
        requires
            a == l * q + r;
}

/// Normalising a vector at least one unit long yields a vector of unit
/// length up to fixed-point rounding: its squared length lies within a few
/// dozen ulps of `ONE`, its length within thirteen ulps.
pub proof fn lemma_normalized_unit_length(v: Vector3V)
    requires
        v3_ok(v),
        ONE as int <= lsq_s(v),
    ensures
        ONE - 25 <= lsq_s(v3_normalize(v)) <= ONE + 27,
        ONE - 13 <= len_s(v3_normalize(v)) <= ONE + 13,
{
    let raw = dot_raw(v, v);
    let lsq = lsq_s(v);
    let l = len_s(v);
    let w = v3_normalize(v);
    assert(ONE == 65536);
    lemma_fundamental_div_mod(raw, 65536);
    assert(raw / (ONE as int) == raw / 65536);
    assert(lsq * (ONE as int) == lsq * 65536);
    lemma_isqrt_s(lsq * 65536);
    assert(l == isqrt_s(lsq * 65536));
    assert(65536 <= l) by (nonlinear_arith)
        requires
            is_sqrt(lsq * 65536, l) && 65536 <= lsq;
    lemma_normalize_bounded(v);
    lemma_fundamental_div_mod(v.x * 65536, l);
    lemma_mod_division_less_than_divisor(v.x * 65536, l);
    lemma_fundamental_div_mod(v.y * 65536, l);
    lemma_mod_division_less_than_divisor(v.y * 65536, l);
    lemma_fundamental_div_mod(v.z * 65536, l);
    lemma_mod_division_less_than_divisor(v.z * 65536, l);
    let qx = (v.x * 65536) / l;
    let rx = (v.x * 65536) % l;
    let qy = (v.y * 65536) / l;
    let ry = (v.y * 65536) % l;
    let qz = (v.z * 65536) / l;
    let rz = (v.z * 65536) % l;
    assert(v.x * (ONE as int) == v.x * 65536 && v.y * (ONE as int) == v.y * 65536 && v.z * (
    ONE as int) == v.z * 65536);
    assert(w.x == qx && w.y == qy && w.z == qz);
    lemma_square_decompose(v.x * 65536, l, qx, rx);
    lemma_square_decompose(v.y * 65536, l, qy, ry);
    lemma_square_decompose(v.z * 65536, l, qz, rz);
    let nn = qx * qx + qy * qy + qz * qz;
    let tt = qx * rx + qy * ry + qz * rz;
    let rr = rx * rx + ry * ry + rz * rz;
    assert((v.x * 65536) * (v.x * 65536) + (v.y * 65536) * (v.y * 65536) + (v.z * 65536) * (v.z
        * 65536) == raw * 4294967296) by (nonlinear_arith)
        requires
            raw == v.x * v.x + v.y * v.y + v.z * v.z;
    assert(l * l * nn == l * l * (qx * qx) + l * l * (qy * qy) + l * l * (qz * qz) && 2 * l * tt
        == 2 * l * (qx * rx) + 2 * l * (qy * ry) + 2 * l * (qz * rz)) by (nonlinear_arith)
        requires
            nn == qx * qx + qy * qy + qz * qz && tt == qx * rx + qy * ry + qz * rz;
    assert(raw * 4294967296 == l * l * nn + 2 * l * tt + rr);
    assert(-(786432 * l) <= tt && tt <= 786432 * l && 0 <= rr && rr <= 3 * (l * l))
        by (nonlinear_arith)
        requires
            tt == qx * rx + qy * ry + qz * rz && rr == rx * rx + ry * ry + rz * rz && -0x40000 <= qx
                <= 0x40000 && -0x40000 <= qy <= 0x40000 && -0x40000 <= qz <= 0x40000 && 0 <= rx < l
                && 0 <= ry < l && 0 <= rz < l;
    assert(-(2 * l * tt) <= 1572864 * (l * l) && 2 * l * tt <= 1572864 * (l * l))
        by (nonlinear_arith)
        requires
            -(786432 * l) <= tt && tt <= 786432 * l && 0 < l;
    // raw is squeezed between l^2 and l^2 + 3l.
    assert(l * l <= lsq * 65536 && 65536 * lsq == lsq * 65536);
    assert(lsq * 65536 <= l * l + 2 * l) by (nonlinear_arith)
        requires
            lsq * 65536 < (l + 1) * (l + 1);
    assert(65536 * l <= l * l) by (nonlinear_arith)
        requires
            65536 <= l;
    assert(l * l <= raw && raw <= l * l + 3 * l);
    // the squared length of the normalised vector, in raw form.
    assert(3 * l * 4294967296 <= 196608 * (l * l)) by (nonlinear_arith)
        requires
            65536 <= l;
    assert(raw * 4294967296 <= (l * l) * 4294967296 + 3 * l * 4294967296) by (nonlinear_arith)
        requires
            raw <= l * l + 3 * l;
    assert((l * l) * 4294967296 <= raw * 4294967296) by (nonlinear_arith)
        requires
            l * l <= raw;
    assert(l * l * nn <= (l * l) * 4294967296 + 196608 * (l * l) + 1572864 * (l * l));
    assert(l * l * nn >= (l * l) * 4294967296 - 1572864 * (l * l) - 3 * (l * l));
    assert(nn <= 4294967296 + 1769472) by (nonlinear_arith)
        requires
            l * l * nn <= (l * l) * 4294967296 + 196608 * (l * l) + 1572864 * (l * l) && 1 <= l * l;
    assert(nn >= 4294967296 - 1638400) by (nonlinear_arith)
        requires
            l * l * nn >= (l * l) * 4294967296 - 1572864 * (l * l) - 3 * (l * l) && 1 <= l * l;
    // rescale: the squared length is nn / ONE, within [ONE - 25, ONE + 27].
    assert(dot_raw(w, w) == nn);
    assert(dot_raw(w, w) / (ONE as int) == nn / 65536);
    lemma_div_is_ordered(4294967296int - 1638400, nn, 65536);
    lemma_div_is_ordered(nn, 4294967296int + 1769472, 65536);
    assert((4294967296int - 1638400) / 65536 == 65511 && (4294967296int + 1769472) / 65536
        == 65563);
    // and the length is the square root of that, within [ONE - 13, ONE + 13].
    let lw = lsq_s(w);
    assert(65511 <= lw <= 65563);
    assert(lw * (ONE as int) == lw * 65536);
    lemma_isqrt_s(lw * 65536);
    let lenw = len_s(w);
    assert(lenw == isqrt_s(lw * 65536));
    assert(65523 <= lenw && lenw <= 65549) by (nonlinear_arith)
        requires
            is_sqrt(lw * 65536, lenw) && 65511 <= lw <= 65563;
}

/// One component of a normalised vector stays within four units.
proof fn lemma_normalize_comp(c: int, raw: int, lsq: int, l: int)
    requires
        c * c <= raw,
        lsq == raw / 65536,
        1 <= lsq,
        is_sqrt(lsq * 65536, l),
    ensures
        -0x40000 <= fdiv_s(c, l) <= 0x40000,
{
    lemma_fundamental_div_mod(raw, 65536);
    assert(1 <= l) by (nonlinear_arith)
        requires
            is_sqrt(lsq * 65536, l) && 1 <= lsq;
    assert(-3 * l <= c && c <= 3 * l) by (nonlinear_arith)
        requires
            c * c <= raw && raw == 65536 * lsq + raw % 65536 && 0 <= raw % 65536 < 65536 && 1 <= lsq
                && 1 <= l && lsq * 65536 < (l + 1) * (l + 1);
    assert(-(0x40000) * l <= c * 65536 && c * 65536 <= 0x40000 * l) by (nonlinear_arith)
        requires
            -3 * l <= c <= 3 * l && 1 <= l;
    lemma_div_mag(c * 65536, l, 0x40000);
    assert(ONE == 65536);
    assert(c * (ONE as int) == c * 65536);
}

impl Vector3 {
    /// The componentwise sum.
    pub fn add(self, other: Vector3) -> (r: Vector3)
        requires
            v3_ok(self@),
            v3_ok(other@),
        ensures
            r@ == v3_add(self@, other@),
    {
        Vector3 { x: self.x + other.x, y: self.y + other.y, z: self.z + other.z }
    }

    /// The componentwise difference.
    pub fn sub(self, other: Vector3) -> (r: Vector3)
        requires
            v3_ok(self@),
            v3_ok(other@),
        ensures
            r@ == v3_sub(self@, other@),
    {
        Vector3 { x: self.x - other.x, y: self.y - other.y, z: self.z - other.z }
    }

    /// The componentwise negation.
    pub fn neg(self) -> (r: Vector3)
        requires
            v3_ok(self@),
        ensures
            r@ == v3_neg(self@),
    {
        Vector3 { x: -self.x, y: -self.y, z: -self.z }
    }

    /// Scaling by a fixed-point scalar.
    pub fn mul(self, s: i64) -> (r: Vector3)
        requires
            v3_ok(self@),
            fx_ok(s as int),
        ensures
            r@ == v3_scale(self@, s as int),
    {
        Vector3 { x: fmul(self.x, s), y: fmul(self.y, s), z: fmul(self.z, s) }
    }

    /// Division by a nonzero fixed-point scalar.
    pub fn div(self, s: i64) -> (r: Vector3)
        requires
            v3_ok(self@),
            s != 0,
        ensures
            r@ == v3_div(self@, s as int),
    {
        Vector3 { x: fdiv(self.x, s), y: fdiv(self.y, s), z: fdiv(self.z, s) }
    }

    /// In-place componentwise sum.
    pub fn add_assign(&mut self, other: Vector3)
        requires
            v3_ok(old(self)@),
            v3_ok(other@),
        ensures
            final(self)@ == v3_add(old(self)@, other@),
    {
        self.x = self.x + other.x;
        self.y = self.y + other.y;
        self.z = self.z + other.z;
    }

    /// In-place componentwise difference.
    pub fn sub_assign(&mut self, other: Vector3)
        requires
            v3_ok(old(self)@),
            v3_ok(other@),
        ensures
            final(self)@ == v3_sub(old(self)@, other@),
    {
        self.x = self.x - other.x;
        self.y = self.y - other.y;
        self.z = self.z - other.z;
    }

    /// In-place scaling by a fixed-point scalar.
    pub fn mul_assign(&mut self, s: i64)
        requires
            v3_ok(old(self)@),
            fx_ok(s as int),
        ensures
            final(self)@ == v3_scale(old(self)@, s as int),
    {
        self.x = fmul(self.x, s);
        self.y = fmul(self.y, s);
        self.z = fmul(self.z, s);
    }

    /// In-place division by a nonzero fixed-point scalar.
    pub fn div_assign(&mut self, s: i64)
        requires
            v3_ok(old(self)@),
            s != 0,
        ensures
            final(self)@ == v3_div(old(self)@, s as int),
    {
        self.x = fdiv(self.x, s);
        self.y = fdiv(self.y, s);
        self.z = fdiv(self.z, s);
    }

    /// The fixed-point dot product.
    pub fn dot(self, other: Vector3) -> (r: i64)
        requires
            v3_ok(self@),
            v3_ok(other@),
        ensures
            r as int == dot_s(self@, other@),
    {
        proof {
            assert((self.x as int) * (other.x as int) <= 0x1000_0000_0000_0000_0000 && (
            self.x as int) * (other.x as int) >= -0x1000_0000_0000_0000_0000 && (self.y as int) * (
            other.y as int) <= 0x1000_0000_0000_0000_0000 && (self.y as int) * (other.y as int)
                >= -0x1000_0000_0000_0000_0000 && (self.z as int) * (other.z as int)
                <= 0x1000_0000_0000_0000_0000 && (self.z as int) * (other.z as int)
                >= -0x1000_0000_0000_0000_0000) by (nonlinear_arith)
                requires
                    v3_ok(self@) && v3_ok(other@) && crate::fx::FX_BOUND == 0x40_0000_0000;
        }
        let px: i128 = (self.x as i128) * (other.x as i128);
        let py: i128 = (self.y as i128) * (other.y as i128);
        let pz: i128 = (self.z as i128) * (other.z as i128);
        let sum: i128 = px + py + pz;
        proof {
            lemma_div_mag(sum as int, ONE as int, 0x3000_0000_0000_0000int);
        }
        let q = floor_div_wide(sum, ONE as i128);
        q as i64
    }

    /// The squared length: the dot product of the vector with itself.
    pub fn length_squared(self) -> (r: i64)
        requires
            v3_ok(self@),
        ensures
            r as int == lsq_s(self@),
            0 <= r,
    {
        proof {
            lemma_dot_self_nonneg(self@);
        }
        self.dot(self)
    }

    /// The length: the fixed-point square root of the squared length.
    pub fn length(self) -> (r: i64)
        requires
            v3_ok(self@),
        ensures
            r as int == len_s(self@),
            0 <= r,
    {
        let lsq = self.length_squared();
        fsqrt(lsq)
    }

    /// In-place normalisation: each component is divided by the length.
    /// The vector must not be the zero vector.
    pub fn normalise(&mut self)
        requires
            v3_ok(old(self)@),
            1 <= lsq_s(old(self)@),
        ensures
            final(self)@ == v3_normalize(old(self)@),
    {
        let len = self.length();
        proof {
            lemma_normalize_bounded(old(self)@);
        }
        self.x = fdiv(self.x, len);
        self.y = fdiv(self.y, len);
        self.z = fdiv(self.z, len);
    }

    /// The normalised copy of a nonzero vector.
    pub fn normalised(self) -> (r: Vector3)
        requires
            v3_ok(self@),
            1 <= lsq_s(self@),
        ensures
            r@ == v3_normalize(self@),
    {
        let mut out = self;
        out.normalise();
        out
    }

    /// The zero vector.
    pub fn zero() -> (r: Vector3)
        ensures
            r@ == v3_zero(),
    {
        Vector3 { x: 0, y: 0, z: 0 }
    }

    /// The unit vector along the first axis.
    pub fn unit_x() -> (r: Vector3)
        ensures
            r@ == (Vector3V { x: ONE as int, y: 0, z: 0 }),
    {
        Vector3 { x: ONE, y: 0, z: 0 }
    }

    /// The unit vector along the second axis.
    pub fn unit_y() -> (r: Vector3)
        ensures
            r@ == (Vector3V { x: 0, y: ONE as int, z: 0 }),
    {
        Vector3 { x: 0, y: ONE, z: 0 }
    }

    /// The unit vector along the third axis.
    pub fn unit_z() -> (r: Vector3)
        ensures
            r@ == (Vector3V { x: 0, y: 0, z: ONE as int }),
    {
        Vector3 { x: 0, y: 0, z: ONE }
    }

    /// A vector from its three components.
    pub fn new(x: i64, y: i64, z: i64) -> (r: Vector3)
        ensures
            r@ == (Vector3V { x: x as int, y: y as int, z: z as int }),
    {
        Vector3 { x, y, z }
    }
}

} // verus!
