//! Fixed-point scalars: an `i64` holds the real value scaled by `ONE`.
//!
//! The module gives the scaled product, quotient and square root their exact
//! integer meaning (`fmul_s`, `fdiv_s`, `isqrt_s`), proves the executable
//! operations equal to those spec functions, and collects the small division
//! lemmas the rest of the crate leans on.

use vstd::prelude::*;

verus! {

use vstd::arithmetic::div_mod::lemma_div_is_ordered;
use vstd::arithmetic::div_mod::lemma_div_nonincreasing;
use vstd::arithmetic::div_mod::lemma_div_pos_is_pos;
use vstd::arithmetic::div_mod::lemma_div_multiples_vanish;
use vstd::arithmetic::div_mod::lemma_mod_division_less_than_divisor;
use vstd::arithmetic::div_mod::lemma_fundamental_div_mod;
use vstd::arithmetic::div_mod::lemma_fundamental_div_mod_converse;

/// The fixed-point unit: real value 1.0, sixteen fractional bits.
pub const ONE: i64 = 65536;

/// Operand bound for the scaled product and quotient: inputs within this
/// magnitude keep every intermediate inside the machine range.
pub const FX_BOUND: i64 = 0x40_0000_0000;

/// A scalar small enough to take part in a product or quotient.
pub open spec fn fx_ok(a: int) -> bool {
    -(FX_BOUND as int) <= a <= FX_BOUND as int
}

/// The fixed-point product: floor of `a * b` rescaled by `ONE`.
pub open spec fn fmul_s(a: int, b: int) -> int {
    (a * b) / (ONE as int)
}

/// The fixed-point quotient of `a` by a nonzero `b`: for positive `b` the
/// floor of `a / b` rescaled by `ONE`; a negative divisor follows real
/// division's sign rule, `a / b == -(a / -b)`.
pub open spec fn fdiv_s(a: int, b: int) -> int {
    if 0 < b {
        (a * (ONE as int)) / b
    } else {
        -((a * (ONE as int)) / -b)
    }
}

/// `r` is the integer square root of `n`: the greatest integer whose square
/// does not exceed `n`.
pub open spec fn is_sqrt(n: int, r: int) -> bool {
    0 <= r && r * r <= n && n < (r + 1) * (r + 1)
}

/// The integer square root, by the classical recurrence from `n / 4`.
pub open spec fn isqrt_s(n: int) -> int
    decreases n,
{
    if n < 1 {
        0
    } else {
        let h = 2 * isqrt_s(n / 4);
        if (h + 1) * (h + 1) <= n {
            h + 1
        } else {
            h
        }
    }
}

/// The fixed-point square root of a non-negative scalar.
pub open spec fn fsqrt_s(x: int) -> int {
    isqrt_s(x * (ONE as int))
}

/// A quotient by a positive divisor keeps any magnitude bound stated in
/// multiples of the divisor.
pub proof fn lemma_div_mag(a: int, d: int, m: int)
    requires
        0 < d,
        0 <= m,
        -(m * d) <= a,
        a <= m * d,
    ensures
        -m <= a / d,
        a / d <= m,
{
    lemma_div_is_ordered(a, m * d, d);
    lemma_div_is_ordered(-(m * d), a, d);
    lemma_div_multiples_vanish(m, d);
    lemma_div_multiples_vanish(-m, d);
    assert(m * d == d * m) by (nonlinear_arith);
    assert(-(m * d) == d * -m) by (nonlinear_arith);
}

/// Two integer square roots of the same number are equal.
pub proof fn lemma_sqrt_unique(n: int, a: int, b: int)
    requires
        is_sqrt(n, a),
        is_sqrt(n, b),
    ensures
        a == b,
{
    if a < b {
        assert((a + 1) * (a + 1) <= b * b) by (nonlinear_arith)
            requires
                0 <= a && a + 1 <= b;
    }
    if b < a {
        assert((b + 1) * (b + 1) <= a * a) by (nonlinear_arith)
            requires
                0 <= b && b + 1 <= a;
    }
}

/// `isqrt_s` really is the integer square root.
pub proof fn lemma_isqrt_s(n: int)
    requires
        0 <= n,
    ensures
        is_sqrt(n, isqrt_s(n)),
    decreases n,
{
    if n < 1 {
        assert(isqrt_s(n) == 0);
        assert(is_sqrt(n, 0)) by (nonlinear_arith)
            requires
                n == 0;
    } else {
        lemma_fundamental_div_mod(n, 4);
        lemma_isqrt_s(n / 4);
        let s = isqrt_s(n / 4);
        let h = 2 * s;
        let q4 = n / 4;
        let r4 = n % 4;
        assert(0 <= r4 && r4 < 4);
        let r = isqrt_s(n);
        assert(0 <= r) by {
            assert(r == h + 1 || r == h);
        }
        if (h + 1) * (h + 1) <= n {
            assert(r == h + 1);
            assert(r * r <= n && n < (r + 1) * (r + 1)) by (nonlinear_arith)
                requires
                    r == h + 1 && h == 2 * s && (h + 1) * (h + 1) <= n && n == 4 * q4 + r4 && r4
                        < 4 && q4 < (s + 1) * (s + 1);
        } else {
            assert(r == h);
            assert(r * r <= n && n < (r + 1) * (r + 1)) by (nonlinear_arith)
                requires
                    r == h && h == 2 * s && s * s <= q4 && n == 4 * q4 + r4 && 0 <= r4 && !((h + 1)
                        * (h + 1) <= n);
        }
    }
}

/// The square root of an exact square.
pub proof fn lemma_isqrt_square(r: int)
    requires
        0 <= r,
    ensures
        isqrt_s(r * r) == r,
{
    assert(r * r >= 0) by (nonlinear_arith);
    lemma_isqrt_s(r * r);
    assert(r * r < (r + 1) * (r + 1)) by (nonlinear_arith)
        requires
            0 <= r;
    lemma_sqrt_unique(r * r, isqrt_s(r * r), r);
}

/// The sign rule of the fixed-point quotient: negating the divisor negates
/// the result.
pub proof fn lemma_fdiv_sign(a: int, b: int)
    requires
        0 < b,
    ensures
        fdiv_s(a, -b) == -fdiv_s(a, b),
{
}

/// Scaling by a positive factor and then dividing by it returns the value
/// up to rounding: never above the original, and below it by at most
/// `ONE / s + 1` — a single unit in the last place once the factor is a
/// whole unit or more.
pub proof fn lemma_scale_div_round_trip(x: int, s: int)
    requires
        1 <= s,
    ensures
        fdiv_s(fmul_s(x, s), s) <= x,
        x - 65535int / s - 1 <= fdiv_s(fmul_s(x, s), s),
{
    assert(ONE == 65536);
    let y = fmul_s(x, s);
    let z = fdiv_s(y, s);
    lemma_fundamental_div_mod(x * s, 65536);
    let r1 = (x * s) % 65536;
    lemma_fundamental_div_mod(y * 65536, s);
    lemma_mod_division_less_than_divisor(y * 65536, s);
    let r2 = (y * 65536) % s;
    assert(y == (x * s) / 65536);
    assert(y * (ONE as int) == y * 65536);
    assert(s * z == x * s - r1 - r2) by (nonlinear_arith)
        requires
            x * s == 65536 * y + r1 && y * 65536 == s * z + r2;
    assert(s * (x - z) == r1 + r2) by (nonlinear_arith)
        requires
            s * z == x * s - r1 - r2;
    assert(x - z >= 0) by (nonlinear_arith)
        requires
            s * (x - z) == r1 + r2 && 0 <= r1 && 0 <= r2 && 1 <= s;
    lemma_fundamental_div_mod(65535int, s);
    lemma_mod_division_less_than_divisor(65535int, s);
    assert(x - z <= 65535int / s + 1) by (nonlinear_arith)
        requires
            s * (x - z) == r1 + r2 && r1 <= 65535 && r2 <= s - 1 && 1 <= s && 65535int == s * (
            65535int / s) + 65535int % s && 0 <= 65535int % s < s;
}

/// The fixed-point product of bounded scalars is bounded: operand bounds
/// `ma`, `mb` with `ma * mb <= m * ONE` give `|fmul_s| <= m`.
pub proof fn lemma_fmul_bound(a: int, b: int, ma: int, mb: int, m: int)
    requires
        0 <= ma,
        0 <= mb,
        -ma <= a <= ma,
        -mb <= b <= mb,
        0 <= m,
        ma * mb <= m * 65536,
    ensures
        -m <= fmul_s(a, b) <= m,
{
    assert(ONE == 65536);
    assert(-(m * (ONE as int)) <= a * b && a * b <= m * (ONE as int)) by (nonlinear_arith)
        requires
            0 <= ma && 0 <= mb && -ma <= a <= ma && -mb <= b <= mb && ma * mb <= m * 65536
                && ONE as int == 65536;
    lemma_div_mag(a * b, ONE as int, m);
}

/// Euclidean quotient by a positive divisor, on wide integers; division is
/// performed on non-negative values only.
pub fn floor_div_wide(a: i128, d: i128) -> (q: i128)
    requires
        0 < d,
        -0x1000_0000_0000_0000_0000_0000_0000_0000 < a,
        a < 0x1000_0000_0000_0000_0000_0000_0000_0000,
        d < 0x1000_0000_0000_0000_0000_0000_0000_0000,
    ensures
        q == a as int / d as int,
{
    if a >= 0 {
        let q0: u128 = (a as u128) / (d as u128);
        proof {
            lemma_div_pos_is_pos(a as int, d as int);
            lemma_div_nonincreasing(a as int, d as int);
        }
        q0 as i128
    } else {
        let n: u128 = (-a) as u128;
        let du: u128 = d as u128;
        let q0: u128 = (n + (du - 1)) / du;
        proof {
            let ni = n as int;
            let di = d as int;
            lemma_fundamental_div_mod(ni, di);
            let qn = ni / di;
            let rn = ni % di;
            lemma_div_pos_is_pos(ni, di);
            if rn == 0 {
                assert(ni + di - 1 == qn * di + (di - 1)) by {
                    assert(di * qn == qn * di) by (nonlinear_arith);
                }
                lemma_fundamental_div_mod_converse(ni + di - 1, di, qn, di - 1);
                assert(a as int == (-qn) * di + 0) by (nonlinear_arith)
                    requires
                        a as int == -ni && ni == di * qn + rn && rn == 0;
                lemma_fundamental_div_mod_converse(a as int, di, -qn, 0);
            } else {
                assert(ni + di - 1 == (qn + 1) * di + (rn - 1)) by (nonlinear_arith)
                    requires
                        ni == di * qn + rn;
                lemma_fundamental_div_mod_converse(ni + di - 1, di, qn + 1, rn - 1);
                assert(a as int == (-qn - 1) * di + (di - rn)) by (nonlinear_arith)
                    requires
                        a as int == -ni && ni == di * qn + rn;
                lemma_fundamental_div_mod_converse(a as int, di, -qn - 1, di - rn);
            }
            lemma_div_pos_is_pos(ni + di - 1, di);
            lemma_div_nonincreasing(ni + di - 1, di);
        }
        -(q0 as i128)
    }
}

/// The fixed-point product: exact floor of the rescaled mathematical product.
pub fn fmul(a: i64, b: i64) -> (r: i64)
    requires
        fx_ok(a as int),
        fx_ok(b as int),
    ensures
        r as int == fmul_s(a as int, b as int),
{
    proof {
        assert(-0x1000_0000_0000_0000_0000 <= (a as int) * (b as int) <= 0x1000_0000_0000_0000_0000)
            by (nonlinear_arith)
            requires
                -0x40_0000_0000 <= a as int <= 0x40_0000_0000 && -0x40_0000_0000 <= b as int
                    <= 0x40_0000_0000;
    }
    let p: i128 = (a as i128) * (b as i128);
    proof {
        lemma_div_mag(p as int, ONE as int, 0x1000_0000_0000_0000int);
    }
    let q: i128 = floor_div_wide(p, ONE as i128);
    q as i64
}

/// The fixed-point quotient by a nonzero divisor: the exact rescaled
/// quotient of `fdiv_s`, with real division's sign rule for a negative
/// divisor.
pub fn fdiv(a: i64, b: i64) -> (r: i64)
    requires
        fx_ok(a as int),
        b != 0,
    ensures
        r as int == fdiv_s(a as int, b as int),
{
    let p: i128 = (a as i128) * (ONE as i128);
    let d: i128 = if b > 0 {
        b as i128
    } else {
        -(b as i128)
    };
    let q: i128 = floor_div_wide(p, d);
    proof {
        let pi = p as int;
        assert(-(0x40_0000_0000_0000int * (d as int)) <= pi && pi <= 0x40_0000_0000_0000int * (
        d as int)) by (nonlinear_arith)
            requires
                -0x40_0000_0000 <= a as int <= 0x40_0000_0000 && 1 <= d as int && pi == (
                a as int) * 0x10000;
        lemma_div_mag(pi, d as int, 0x40_0000_0000_0000int);
    }
    if b > 0 {
        q as i64
    } else {
        (-q) as i64
    }
}

/// The integer square root of a wide unsigned value, by bisection.
pub fn isqrt(n: u128) -> (r: u128)
    ensures
        r as int == isqrt_s(n as int),
        is_sqrt(n as int, r as int),
{
    let mut lo: u128 = 0;
    let mut hi: u128 = 0x1_0000_0000_0000_0000;
    proof {
        assert((hi as int) * (hi as int) > n as int) by (nonlinear_arith)
            requires
                hi as int == 0x1_0000_0000_0000_0000 && (n as int)
                    < 0x1_0000_0000_0000_0000_0000_0000_0000_0000;
    }
    while lo + 1 < hi
        invariant
            0 <= lo < hi <= 0x1_0000_0000_0000_0000,
            (lo as int) * (lo as int) <= n as int,
            (hi as int) * (hi as int) > n as int,
        decreases hi - lo,
    {
        let mid: u128 = lo + (hi - lo) / 2;
        proof {
            assert((mid as int) * (mid as int) < 0x1_0000_0000_0000_0000_0000_0000_0000_0000)
                by (nonlinear_arith)
                requires
                    0 <= mid as int && (mid as int) < 0x1_0000_0000_0000_0000;
        }
        if mid * mid <= n {
            lo = mid;
        } else {
            hi = mid;
        }
    }
    proof {
        lemma_isqrt_s(n as int);
        lemma_sqrt_unique(n as int, lo as int, isqrt_s(n as int));
    }
    lo
}

/// The fixed-point square root of a non-negative scalar.
pub fn fsqrt(x: i64) -> (r: i64)
    requires
        0 <= x,
    ensures
        r as int == fsqrt_s(x as int),
        is_sqrt((x as int) * (ONE as int), r as int),
        0 <= r <= 0x100_0000_0000,
{
    let n: u128 = (x as u128) * 65536;
    let r = isqrt(n);
    proof {
        assert(ONE == 65536);
        let ri = r as int;
        assert(ri < 0x100_0000_0000) by (nonlinear_arith)
            requires
                0 <= ri && ri * ri <= n as int && n as int == (x as int) * 65536 && 0 <= x as int
                    <= 0x7fff_ffff_ffff_ffff;
    }
    r as i64
}

} // verus!
