//! Fixed-point scalars and vectors: one grid unit is `FP` units, so a value
//! of type `i64` stands for the rational number `value / FP`. All geometry in
//! the crate (camera position, direction vectors, ray distances) is carried in
//! these units, and division always rounds toward negative infinity so that
//! executable results match the mathematical `/` used in specifications.

use vstd::prelude::*;
use vstd::arithmetic::div_mod::{
    lemma_div_of0, lemma_fundamental_div_mod, lemma_fundamental_div_mod_converse,
};

verus! {


/// A sentinel distance larger than any distance the raycaster can produce.
pub const DIST_INF: i64 = 1_000_000_000_000_000;

/// A 2D vector in fixed-point units.
#[derive(Clone, Copy, PartialEq, Eq, Structural, Debug)]
pub struct Vec2Fx {
    pub x: i64,
    pub y: i64,
}

pub open spec fn norm_sq(v: Vec2Fx) -> int {
    v.x * v.x + v.y * v.y
}

/// Quotient `p / q` rounded toward negative infinity, for any nonzero `q`.
pub open spec fn div_floor(p: int, q: int) -> int {
    if q > 0 {
        p / q
    } else {
        (-p) / (-q)
    }
}

/// For positive `n` and `b`, the floor of `-n / b` is the negated ceiling of
/// `n / b`.
proof fn lemma_neg_div(n: int, b: int)
    requires
        n > 0,
        b > 0,
    ensures
        (-n) / b == -((n + b - 1) / b),
{
    let q = (n + b - 1) / b;
    lemma_fundamental_div_mod(n + b - 1, b);
    let r = (n + b - 1) % b;
    assert(n + b - 1 == b * q + r);
    assert(b * q == n + b - 1 - r);
    assert(b * q >= n);
    assert((-q) * b == -(b * q)) by (nonlinear_arith);
    assert(-n == (-q) * b + (b * q - n));
    assert(0 <= b * q - n < b);
    lemma_fundamental_div_mod_converse(-n, b, -q, b * q - n);
}

/// Floor division by a positive divisor never moves a value past zero: the
/// quotient lies between the dividend and zero.
pub proof fn lemma_div_shrinks(p: int, f: int)
    requires
        f >= 1,
    ensures
        p >= 0 ==> 0 <= p / f <= p,
        p < 0 ==> p <= p / f <= 0,
{
    lemma_fundamental_div_mod(p, f);
    let q = p / f;
    let r = p % f;
    if p >= 0 {
        assert(q >= 0 && q <= p) by (nonlinear_arith)
            requires
                f >= 1,
                p == f * q + r,
                0 <= r < f,
                p >= 0,
        ;
    } else {
        assert(q <= 0 && q >= p) by (nonlinear_arith)
            requires
                f >= 1,
                p == f * q + r,
                0 <= r < f,
                p < 0,
        ;
    }
}

/// Floor of `a * b / c` computed through 128-bit intermediates, defined for
/// any signs of `a` and `b` and any nonzero `c`; `None` exactly when the
/// quotient does not fit in an `i64`.
pub fn mul_div_checked(a: i64, b: i64, c: i64) -> (r: Option<i64>)
    requires
        c != 0,
        a > i64::MIN,
        b > i64::MIN,
        c > i64::MIN,
    ensures
        match r {
            Some(v) => v == div_floor(a * b, c as int),
            None => !(i64::MIN < div_floor(a * b, c as int) <= i64::MAX),
        },
{
    // Normalize the divisor to be positive; flipping the signs of both the
    // product and the divisor leaves the floored quotient unchanged.
    let (na, nc): (i64, i64) = if c < 0 { (-a, -c) } else { (a, c) };
    let neg: bool = (na < 0) != (b < 0);
    let ma: u128 = if na < 0 { (-na) as u128 } else { na as u128 };
    let mb: u128 = if b < 0 { (-b) as u128 } else { b as u128 };
    let mc: u128 = nc as u128;
    proof {
        assert(ma * mb <= 0x8000_0000_0000_0000u128 * 0x8000_0000_0000_0000u128)
            by (nonlinear_arith)
            requires
                0 <= ma <= 0x8000_0000_0000_0000u128,
                0 <= mb <= 0x8000_0000_0000_0000u128,
        ;
    }
    let m: u128 = ma * mb;
    proof {
        if c < 0 {
            assert(na * b == -(a * b)) by (nonlinear_arith)
                requires
                    na == -(a as int),
            ;
        }
        assert(div_floor(a * b, c as int) == (na * b) / (nc as int));
        if neg {
            assert(m == -(na * b)) by (nonlinear_arith)
                requires
                    m == ma * mb,
                    (na < 0 && b >= 0 && ma == -(na as int) && mb == b) || (na >= 0 && b < 0
                        && ma == na && mb == -(b as int)),
            ;
        } else {
            assert(m == na * b) by (nonlinear_arith)
                requires
                    m == ma * mb,
                    (na < 0 && b < 0 && ma == -(na as int) && mb == -(b as int)) || (na >= 0 && b
                        >= 0 && ma == na && mb == b),
            ;
        }
    }
    if m == 0 {
        proof {
            assert(na * b == 0);
            lemma_div_of0(nc as int);
        }
        Some(0)
    } else if !neg {
        let q: u128 = m / mc;
        proof {
            assert(q == (na * b) / (nc as int));
        }
        if q > 0x7fff_ffff_ffff_ffff {
            None
        } else {
            Some(q as i64)
        }
    } else {
        let q: u128 = (m + mc - 1) / mc;
        proof {
            lemma_neg_div(m as int, mc as int);
            assert((na * b) / (nc as int) == -(q as int));
        }
        if q >= 0x8000_0000_0000_0000 {
            None
        } else {
            Some(-(q as i64))
        }
    }
}

/// Floor of `a * b / c`, for callers that can bound the quotient within
/// `i64` beforehand.
pub fn mul_div_floor(a: i64, b: i64, c: i64) -> (r: i64)
    requires
        c != 0,
        a > i64::MIN,
        b > i64::MIN,
        c > i64::MIN,
        i64::MIN < div_floor(a * b, c as int) <= i64::MAX,
    ensures
        r == div_floor(a * b, c as int),
{
    mul_div_checked(a, b, c).unwrap()
}

/// Quotient of `a` by positive `b`, rounded toward negative infinity; matches
/// the mathematical `a / b` of specifications.
pub fn fdiv(a: i64, b: i64) -> (r: i64)
    requires
        b > 0,
        a > i64::MIN,
    ensures
        r == a as int / b as int,
{
    proof {
        assert(a * 1 == a) by (nonlinear_arith);
        lemma_fundamental_div_mod(a as int, b as int);
        let q = a as int / b as int;
        let rr = a as int % b as int;
        if a >= 0 {
            assert(q > i64::MIN) by (nonlinear_arith)
                requires
                    b >= 1,
                    a as int == b * q + rr,
                    0 <= rr < b,
                    a >= 0,
            ;
        } else {
            assert(q >= a) by (nonlinear_arith)
                requires
                    b >= 1,
                    a as int == b * q + rr,
                    0 <= rr < b,
                    a < 0,
            ;
        }
        assert(q <= i64::MAX) by (nonlinear_arith)
            requires
                b >= 1,
                a as int == b * q + rr,
                0 <= rr < b,
                a <= i64::MAX,
        ;
    }
    mul_div_floor(a, 1, b)
}

} // verus!
