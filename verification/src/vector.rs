//! Immutable-value 2D vectors in fixed-point coordinates, with exact
//! contracts for every algebraic operation.

use vstd::prelude::*;
use vstd::math::abs;
use crate::arith::{SCALE, LIM, tdiv, cl, is_isqrt, sqrt_floor, clamp64, div_trunc, isqrt,
    lemma_isqrt_exists, lemma_mul_bound};

verus! {

/// A 2D vector; components are fixed-point with [`SCALE`] sub-units per unit.
#[derive(Clone, Copy, Debug, PartialEq, Eq, Structural)]
pub struct Vector {
    pub x: i64,
    pub y: i64,
}

/// Componentwise saturating sum.
pub open spec fn add_s(a: Vector, b: Vector) -> Vector {
    Vector { x: cl(a.x + b.x), y: cl(a.y + b.y) }
}

/// Componentwise saturating difference `a - b`.
pub open spec fn sub_s(a: Vector, b: Vector) -> Vector {
    Vector { x: cl(a.x - b.x), y: cl(a.y - b.y) }
}

/// Exact componentwise negation.
pub open spec fn neg_s(a: Vector) -> Vector {
    Vector { x: (-a.x) as i64, y: (-a.y) as i64 }
}

/// Saturating multiplication by a fixed-point scalar.
pub open spec fn scale_s(a: Vector, s: int) -> Vector {
    Vector { x: cl(tdiv(a.x * s, SCALE as int)), y: cl(tdiv(a.y * s, SCALE as int)) }
}

/// Saturating division by a fixed-point scalar.
pub open spec fn divf_s(a: Vector, s: int) -> Vector {
    Vector { x: cl(tdiv(a.x * SCALE, s)), y: cl(tdiv(a.y * SCALE, s)) }
}

/// Fixed-point dot product.
pub open spec fn dot_s(a: Vector, b: Vector) -> int {
    tdiv(a.x * b.x + a.y * b.y, SCALE as int)
}

/// Fixed-point 2D scalar cross product (z component).
pub open spec fn cross_s(a: Vector, b: Vector) -> int {
    tdiv(a.x * b.y - a.y * b.x, SCALE as int)
}

/// Squared Euclidean norm, exact.
pub open spec fn norm2(a: Vector) -> int {
    a.x * a.x + a.y * a.y
}

/// Euclidean norm, rounded down to an integer number of sub-units.
pub open spec fn mag_s(a: Vector) -> int {
    sqrt_floor(norm2(a))
}

impl Vector {
    /// Both components lie within the representable world range.
    pub open spec fn wf(&self) -> bool {
        &&& -LIM <= self.x <= LIM
        &&& -LIM <= self.y <= LIM
    }

    pub fn new(x: i64, y: i64) -> (v: Vector)
        ensures
            v == (Vector { x, y }),
    {
        Vector { x, y }
    }

    /// Vector sum, saturating at the world bound.
    pub fn add(self, other: Vector) -> (r: Vector)
        requires
            self.wf(),
            other.wf(),
        ensures
            r == add_s(self, other),
            r.wf(),
    {
        Vector { x: clamp64(self.x + other.x), y: clamp64(self.y + other.y) }
    }

    /// Vector difference `self - other`, saturating at the world bound.
    pub fn sub(self, other: Vector) -> (r: Vector)
        requires
            self.wf(),
            other.wf(),
        ensures
            r == sub_s(self, other),
            r.wf(),
    {
        Vector { x: clamp64(self.x - other.x), y: clamp64(self.y - other.y) }
    }

    /// Exact negation.
    pub fn neg(self) -> (r: Vector)
        requires
            self.wf(),
        ensures
            r == neg_s(self),
            r.wf(),
    {
        Vector { x: -self.x, y: -self.y }
    }

    /// Multiplication by a fixed-point scalar, saturating at the world bound.
    pub fn mul(self, scalar: i64) -> (r: Vector)
        requires
            self.wf(),
            -LIM <= scalar <= LIM,
        ensures
            r == scale_s(self, scalar as int),
            r.wf(),
    {
        proof {
            lemma_mul_bound(self.x as int, scalar as int, LIM as int, LIM as int);
            lemma_mul_bound(self.y as int, scalar as int, LIM as int, LIM as int);
        }
        Vector {
            x: clamp64(div_trunc(self.x * scalar, SCALE)),
            y: clamp64(div_trunc(self.y * scalar, SCALE)),
        }
    }

    /// Division by a nonzero fixed-point scalar, saturating at the world bound.
    /// Division by zero is ruled out by precondition: the callers in this
    /// crate guard the zero case before dividing.
    pub fn div(self, scalar: i64) -> (r: Vector)
        requires
            self.wf(),
            scalar != 0,
            scalar != i64::MIN,
        ensures
            r == divf_s(self, scalar as int),
            r.wf(),
    {
        proof {
            lemma_mul_bound(self.x as int, SCALE as int, LIM as int, SCALE as int);
            lemma_mul_bound(self.y as int, SCALE as int, LIM as int, SCALE as int);
        }
        Vector {
            x: clamp64(div_trunc(self.x * SCALE, scalar)),
            y: clamp64(div_trunc(self.y * SCALE, scalar)),
        }
    }

    /// Fixed-point dot product; exact (never saturates).
    pub fn dot(self, other: Vector) -> (r: i64)
        requires
            self.wf(),
            other.wf(),
        ensures
            r == dot_s(self, other),
    {
        proof {
            lemma_mul_bound(self.x as int, other.x as int, LIM as int, LIM as int);
            lemma_mul_bound(self.y as int, other.y as int, LIM as int, LIM as int);
        }
        div_trunc(self.x * other.x + self.y * other.y, SCALE)
    }

    /// Fixed-point 2D cross product (z component); exact (never saturates).
    pub fn cross(&self, other: &Vector) -> (r: i64)
        requires
            self.wf(),
            other.wf(),
        ensures
            r == cross_s(*self, *other),
    {
        proof {
            lemma_mul_bound(self.x as int, other.y as int, LIM as int, LIM as int);
            lemma_mul_bound(self.y as int, other.x as int, LIM as int, LIM as int);
        }
        div_trunc(self.x * other.y - self.y * other.x, SCALE)
    }

    /// Euclidean norm, rounded down to a whole number of sub-units.
    pub fn magnitude(&self) -> (r: i64)
        requires
            self.wf(),
        ensures
            r == mag_s(*self),
            is_isqrt(norm2(*self), r as int),
            0 <= r <= 0x1_0000_0000,
    {
        proof {
            assert(0 <= self.x * self.x <= 0x1000_0000_0000_0000) by (nonlinear_arith)
                requires -0x4000_0000 <= self.x <= 0x4000_0000;
            assert(0 <= self.y * self.y <= 0x1000_0000_0000_0000) by (nonlinear_arith)
                requires -0x4000_0000 <= self.y <= 0x4000_0000;
        }
        let n2: i64 = self.x * self.x + self.y * self.y;
        let r: u64 = isqrt(n2 as u64);
        proof {
            assert((r as int) * (r as int) <= n2 as int);
            assert((r as int) * (r as int) < 0x4000_0000_0000_0000);
            assert(r <= 0x1_0000_0000) by (nonlinear_arith)
                requires (r as int) * (r as int) < 0x4000_0000_0000_0000;
        }
        r as i64
    }

    /// The unit vector with this vector's direction, in fixed point.
    /// Undefined on the zero vector, which is excluded by precondition: the
    /// spring force law guards against zero distance before normalizing.
    pub fn normalize(&self) -> (r: Vector)
        requires
            self.wf(),
            !(self.x == 0 && self.y == 0),
        ensures
            r == divf_s(*self, mag_s(*self)),
            r.wf(),
    {
        let m = self.magnitude();
        proof {
            if m == 0 {
                assert(norm2(*self) < 1);
                assert(self.x * self.x + self.y * self.y >= 1) by (nonlinear_arith)
                    requires !(self.x == 0 && self.y == 0);
                assert(false);
            }
        }
        self.div(m)
    }
}

/// Normalizing yields a unit vector, up to fixed-point tolerance: for any
/// vector at least one unit long, the magnitude of its normalization lies
/// within a few sub-units of one unit (exactly `SCALE` in fixed point).
/// Shorter vectors lose too much precision to integer truncation for this
/// bound to hold.
pub proof fn lemma_normalize_unit(v: Vector)
    requires
        v.wf(),
        mag_s(v) >= SCALE,
    ensures
        SCALE - 3 <= mag_s(divf_s(v, mag_s(v))) <= SCALE,
{
    let m = mag_s(v);
    let n2 = norm2(v);
    assert(v.x * v.x >= 0 && v.y * v.y >= 0) by (nonlinear_arith);
    lemma_isqrt_exists(n2);
    let x = v.x as int;
    let y = v.y as int;
    let a = abs(x) as int;
    let b = abs(y) as int;
    assert(a * a == x * x && b * b == y * y) by (nonlinear_arith)
        requires a == abs(x), b == abs(y);
    // each component is at most the magnitude
    assert(a <= m && b <= m) by (nonlinear_arith)
        requires
            0 <= a,
            0 <= b,
            0 <= m,
            a * a + b * b < (m + 1) * (m + 1),
            a * a == x * x,
            b * b == y * y,
            x * x + y * y == n2,
            n2 < (m + 1) * (m + 1),
            a * a + b * b == n2,
    ;
    // the truncated quotients, as nonnegative Euclidean quotients
    let ux = (a * 1000) / m;
    let uy = (b * 1000) / m;
    assert(abs(x * 1000) == a * 1000 && abs(y * 1000) == b * 1000) by (nonlinear_arith)
        requires a == abs(x), b == abs(y);
    let qx = tdiv(x * 1000, m);
    let qy = tdiv(y * 1000, m);
    assert(qx == ux || qx == -ux);
    assert(qy == uy || qy == -uy);
    vstd::arithmetic::div_mod::lemma_fundamental_div_mod(a * 1000, m);
    vstd::arithmetic::div_mod::lemma_fundamental_div_mod(b * 1000, m);
    assert(0 <= ux <= 1000 && m * ux <= a * 1000 && a * 1000 < m * (ux + 1)) by (nonlinear_arith)
        requires
            1000 <= m,
            0 <= a <= m,
            a * 1000 == m * ux + (a * 1000) % m,
            0 <= (a * 1000) % m < m,
    ;
    assert(0 <= uy <= 1000 && m * uy <= b * 1000 && b * 1000 < m * (uy + 1)) by (nonlinear_arith)
        requires
            1000 <= m,
            0 <= b <= m,
            b * 1000 == m * uy + (b * 1000) % m,
            0 <= (b * 1000) % m < m,
    ;
    assert(a * a + b * b <= m * m + 2 * m) by (nonlinear_arith)
        requires
            a * a + b * b < (m + 1) * (m + 1),
    ;
    // upper bound on the squared norm of the normalization
    assert(ux * ux + uy * uy <= 1002000) by (nonlinear_arith)
        requires
            1000 <= m,
            0 <= ux,
            0 <= uy,
            0 <= a,
            0 <= b,
            m * ux <= a * 1000,
            m * uy <= b * 1000,
            a * a + b * b <= m * m + 2 * m,
    ;
    // lower bound on the squared norm of the normalization
    assert(ux * ux + uy * uy > 995998) by (nonlinear_arith)
        requires
            1000 <= m,
            0 <= ux <= 1000,
            0 <= uy <= 1000,
            0 <= a,
            0 <= b,
            a * 1000 < m * (ux + 1),
            b * 1000 < m * (uy + 1),
            m * m <= a * a + b * b,
    ;
    // the normalized components are the clamped quotients, unclamped here
    let u = divf_s(v, m);
    assert(u.x == qx && u.y == qy);
    assert(u.x * u.x == ux * ux && u.y * u.y == uy * uy) by (nonlinear_arith)
        requires
            (u.x == ux || u.x == -ux) && (u.y == uy || u.y == -uy),
    ;
    let m2 = mag_s(u);
    lemma_isqrt_exists(norm2(u));
    assert(995998 < norm2(u) <= 1002000);
    assert(997 <= m2 <= 1000) by (nonlinear_arith)
        requires
            0 <= m2,
            m2 * m2 <= norm2(u),
            norm2(u) < (m2 + 1) * (m2 + 1),
            995998 < norm2(u) <= 1002000,
    ;
}

/// Negating a vector preserves its magnitude, and a magnitude is never
/// negative.
pub proof fn lemma_magnitude_neg(v: Vector)
    requires
        v.wf(),
    ensures
        mag_s(neg_s(v)) == mag_s(v),
        mag_s(v) >= 0,
{
    assert((-v.x) * (-v.x) == v.x * v.x && (-v.y) * (-v.y) == v.y * v.y) by (nonlinear_arith);
    assert(v.x * v.x >= 0 && v.y * v.y >= 0) by (nonlinear_arith);
    assert(norm2(neg_s(v)) == norm2(v));
    lemma_isqrt_exists(norm2(v));
}

} // verus!
