//! Exact rational scalars.
//!
//! Every geometric quantity in this crate (coordinates, scales, colors,
//! interpolation parameters, rotations measured in turns) is a `Frac`: a
//! fraction of two machine integers with a positive denominator. Arithmetic
//! on `Frac` is exact, so contracts can state results precisely instead of
//! approximating. The mathematical value of a `Frac` is its view, a [`Q`]:
//! the same fraction over unbounded integers.

use vstd::prelude::*;

verus! {

/// The mathematical value of a rational scalar: a fraction of two unbounded
/// integers. Spec-level only; the denominator of a well-formed value is
/// positive.
pub struct Q {
    pub num: int,
    pub den: int,
}

/// A well-formed mathematical fraction has a positive denominator.
pub open spec fn q_wf(a: Q) -> bool {
    a.den > 0
}

/// The fraction `n / 1`.
pub open spec fn q_int(n: int) -> Q {
    Q { num: n, den: 1 }
}

pub open spec fn q_zero() -> Q {
    q_int(0)
}

pub open spec fn q_one() -> Q {
    q_int(1)
}

pub open spec fn q_add(a: Q, b: Q) -> Q {
    Q { num: a.num * b.den + b.num * a.den, den: a.den * b.den }
}

pub open spec fn q_sub(a: Q, b: Q) -> Q {
    Q { num: a.num * b.den - b.num * a.den, den: a.den * b.den }
}

pub open spec fn q_mul(a: Q, b: Q) -> Q {
    Q { num: a.num * b.num, den: a.den * b.den }
}

/// Division keeps the denominator positive by moving the divisor's sign into
/// the numerator. Meaningful only when `b.num != 0`.
pub open spec fn q_div(a: Q, b: Q) -> Q {
    if b.num >= 0 {
        Q { num: a.num * b.den, den: a.den * b.num }
    } else {
        Q { num: -(a.num * b.den), den: -(a.den * b.num) }
    }
}

pub open spec fn q_neg(a: Q) -> Q {
    Q { num: -a.num, den: a.den }
}

pub open spec fn q_half(a: Q) -> Q {
    Q { num: a.num, den: 2 * a.den }
}

/// `a <= b` as fractions, assuming positive denominators.
pub open spec fn q_le(a: Q, b: Q) -> bool {
    a.num * b.den <= b.num * a.den
}

/// `a < b` as fractions, assuming positive denominators.
pub open spec fn q_lt(a: Q, b: Q) -> bool {
    a.num * b.den < b.num * a.den
}

/// `a` and `b` denote the same rational number, assuming positive
/// denominators.
pub open spec fn q_eqv(a: Q, b: Q) -> bool {
    a.num * b.den == b.num * a.den
}

/// Linear interpolation `a * (1 - t) + b * t`.
pub open spec fn q_lerp(a: Q, b: Q, t: Q) -> Q {
    q_add(q_mul(a, q_sub(q_one(), t)), q_mul(b, t))
}

/// The fraction is representable by a `Frac`: both components fit in the
/// symmetric range `[-i64::MAX, i64::MAX]` and the denominator is positive.
/// The symmetric bound keeps every cross product of two representable
/// fractions, and every sum of two such products, inside `i128`.
pub open spec fn q_in_range(a: Q) -> bool {
    &&& -0x7fff_ffff_ffff_ffff <= a.num <= 0x7fff_ffff_ffff_ffff
    &&& 0 < a.den <= 0x7fff_ffff_ffff_ffff
}

/// An exact rational scalar: `num / den` with `den > 0`.
///
/// Well-formed values (see [`Frac::wf`]) keep both fields in
/// `[-i64::MAX, i64::MAX]`, so comparisons never overflow and each
/// arithmetic operation only asks the caller to show that its exact result
/// is representable again.
///
/// Derived equality compares the two fields, not the denoted rational; use
/// [`Frac::eqv`] to compare values.
#[derive(Clone, Copy, Debug, PartialEq, Eq, Structural)]
pub struct Frac {
    pub num: i64,
    pub den: i64,
}

impl View for Frac {
    type V = Q;

    open spec fn view(&self) -> Q {
        Q { num: self.num as int, den: self.den as int }
    }
}

/// Widening product of two scalar components. The symmetric bound on the
/// inputs bounds the result strictly below `2^126`, so that even a sum of
/// two such products stays inside `i128`.
fn wide_mul(x: i64, y: i64) -> (r: i128)
    requires
        -0x7fff_ffff_ffff_ffff <= x,
        -0x7fff_ffff_ffff_ffff <= y,
    ensures
        r == x * y,
        -0x4000_0000_0000_0000_0000_0000_0000_0000 < r
            < 0x4000_0000_0000_0000_0000_0000_0000_0000,
{
    proof {
        assert(-0x4000_0000_0000_0000_0000_0000_0000_0000 < (x as int) * (y as int)
            < 0x4000_0000_0000_0000_0000_0000_0000_0000) by (nonlinear_arith)
            requires
                -0x7fff_ffff_ffff_ffff <= x <= 0x7fff_ffff_ffff_ffff,
                -0x7fff_ffff_ffff_ffff <= y <= 0x7fff_ffff_ffff_ffff;
    }
    (x as i128) * (y as i128)
}

/// Widening product of two components already known representable; used by
/// the runtime precondition checks.
pub(crate) fn wide_mul128(x: i128, y: i128) -> (r: i128)
    requires
        -0x7fff_ffff_ffff_ffff <= x <= 0x7fff_ffff_ffff_ffff,
        -0x7fff_ffff_ffff_ffff <= y <= 0x7fff_ffff_ffff_ffff,
    ensures
        r == x * y,
        -0x4000_0000_0000_0000_0000_0000_0000_0000 < r
            < 0x4000_0000_0000_0000_0000_0000_0000_0000,
{
    proof {
        assert(-0x4000_0000_0000_0000_0000_0000_0000_0000 < x * y
            < 0x4000_0000_0000_0000_0000_0000_0000_0000) by (nonlinear_arith)
            requires
                -0x7fff_ffff_ffff_ffff <= x <= 0x7fff_ffff_ffff_ffff,
                -0x7fff_ffff_ffff_ffff <= y <= 0x7fff_ffff_ffff_ffff;
    }
    x * y
}

/// Would a fraction with these components be representable as a `Frac`?
pub(crate) fn components_in_range(num: i128, den: i128) -> (r: bool)
    ensures
        r == q_in_range(Q { num: num as int, den: den as int }),
{
    -0x7fff_ffff_ffff_ffff <= num && num <= 0x7fff_ffff_ffff_ffff && 0 < den && den
        <= 0x7fff_ffff_ffff_ffff
}

impl Frac {
    /// The representation invariant: positive denominator, both fields in
    /// the symmetric `i64` range.
    pub open spec fn wf(self) -> bool {
        q_in_range(self@)
    }

    /// Build `num / den`.
    pub fn new(num: i64, den: i64) -> (r: Frac)
        requires
            num > i64::MIN,
            den > 0,
        ensures
            r@ == (Q { num: num as int, den: den as int }),
            r.wf(),
    {
        Frac { num, den }
    }

    /// The integer `n` as a scalar.
    pub fn from_int(n: i64) -> (r: Frac)
        requires
            n > i64::MIN,
        ensures
            r@ == q_int(n as int),
            r.wf(),
    {
        Frac { num: n, den: 1 }
    }

    pub fn zero() -> (r: Frac)
        ensures
            r@ == q_zero(),
            r.wf(),
    {
        Frac { num: 0, den: 1 }
    }

    pub fn one() -> (r: Frac)
        ensures
            r@ == q_one(),
            r.wf(),
    {
        Frac { num: 1, den: 1 }
    }

    pub fn add(self, other: Frac) -> (r: Frac)
        requires
            self.wf(),
            other.wf(),
            q_in_range(q_add(self@, other@)),
        ensures
            r@ == q_add(self@, other@),
            r.wf(),
    {
        let n = wide_mul(self.num, other.den) + wide_mul(other.num, self.den);
        let d = wide_mul(self.den, other.den);
        Frac { num: n as i64, den: d as i64 }
    }

    pub fn sub(self, other: Frac) -> (r: Frac)
        requires
            self.wf(),
            other.wf(),
            q_in_range(q_sub(self@, other@)),
        ensures
            r@ == q_sub(self@, other@),
            r.wf(),
    {
        let n = wide_mul(self.num, other.den) - wide_mul(other.num, self.den);
        let d = wide_mul(self.den, other.den);
        Frac { num: n as i64, den: d as i64 }
    }

    pub fn mul(self, other: Frac) -> (r: Frac)
        requires
            self.wf(),
            other.wf(),
            q_in_range(q_mul(self@, other@)),
        ensures
            r@ == q_mul(self@, other@),
            r.wf(),
    {
        let n = wide_mul(self.num, other.num);
        let d = wide_mul(self.den, other.den);
        Frac { num: n as i64, den: d as i64 }
    }

    pub fn div(self, other: Frac) -> (r: Frac)
        requires
            self.wf(),
            other.wf(),
            other@.num != 0,
            q_in_range(q_div(self@, other@)),
        ensures
            r@ == q_div(self@, other@),
            r.wf(),
    {
        let n = wide_mul(self.num, other.den);
        let d = wide_mul(self.den, other.num);
        if other.num >= 0 {
            Frac { num: n as i64, den: d as i64 }
        } else {
            Frac { num: (-n) as i64, den: (-d) as i64 }
        }
    }

    pub fn neg(self) -> (r: Frac)
        requires
            self.wf(),
        ensures
            r@ == q_neg(self@),
            r.wf(),
    {
        Frac { num: -self.num, den: self.den }
    }

    /// Halve the value by doubling the denominator.
    pub fn half(self) -> (r: Frac)
        requires
            self.wf(),
            q_in_range(q_half(self@)),
        ensures
            r@ == q_half(self@),
            r.wf(),
    {
        Frac { num: self.num, den: 2 * self.den }
    }

    pub fn le(self, other: Frac) -> (r: bool)
        requires
            self.wf(),
            other.wf(),
        ensures
            r == q_le(self@, other@),
    {
        wide_mul(self.num, other.den) <= wide_mul(other.num, self.den)
    }

    pub fn lt(self, other: Frac) -> (r: bool)
        requires
            self.wf(),
            other.wf(),
        ensures
            r == q_lt(self@, other@),
    {
        wide_mul(self.num, other.den) < wide_mul(other.num, self.den)
    }

    /// Do the two scalars denote the same rational number?
    pub fn eqv(self, other: Frac) -> (r: bool)
        requires
            self.wf(),
            other.wf(),
        ensures
            r == q_eqv(self@, other@),
    {
        wide_mul(self.num, other.den) == wide_mul(other.num, self.den)
    }

}

/// The `Frac` whose fields are the components of `q`. Meaningful only when
/// `q` is representable, see [`q_in_range`].
pub open spec fn frac_of(q: Q) -> Frac {
    Frac { num: q.num as i64, den: q.den as i64 }
}

/// Everything a linear interpolation computes stays representable.
pub open spec fn lerp_in_range(a: Q, b: Q, t: Q) -> bool {
    &&& q_in_range(q_sub(q_one(), t))
    &&& q_in_range(q_mul(a, q_sub(q_one(), t)))
    &&& q_in_range(q_mul(b, t))
    &&& q_in_range(q_lerp(a, b, t))
}

} // verus!
