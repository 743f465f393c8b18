//! Exact rational scalars.
//!
//! The interpolation kernels are piecewise polynomials with rational
//! coefficients, so over rational inputs they can be computed exactly.
//! `Rational` is the executable carrier (an `i128` numerator over a positive
//! `i128` denominator, not necessarily reduced); `Ratio` is its mathematical
//! model. Two ratios denote the same value when they agree under
//! cross-multiplication (`ratio_eq`).

use vstd::prelude::*;

verus! {

/// Mathematical model of a rational number: the quotient `num / den`.
/// Values are not kept in lowest terms; `ratio_eq` compares by
/// cross-multiplication.
pub struct Ratio {
    pub num: int,
    pub den: int,
}

impl Ratio {
    /// A well-formed ratio has a positive denominator.
    pub open spec fn wf(self) -> bool {
        self.den >= 1
    }
}

/// The ratio `num / den`.
pub open spec fn ratio_of(num: int, den: int) -> Ratio {
    Ratio { num: num, den: den }
}

/// Exact product.
pub open spec fn ratio_mul(a: Ratio, b: Ratio) -> Ratio {
    Ratio { num: a.num * b.num, den: a.den * b.den }
}

/// Exact sum.
pub open spec fn ratio_add(a: Ratio, b: Ratio) -> Ratio {
    Ratio { num: a.num * b.den + b.num * a.den, den: a.den * b.den }
}

/// Exact difference.
pub open spec fn ratio_sub(a: Ratio, b: Ratio) -> Ratio {
    Ratio { num: a.num * b.den - b.num * a.den, den: a.den * b.den }
}

/// Exact quotient; meaningful when `b.num >= 1`.
pub open spec fn ratio_div(a: Ratio, b: Ratio) -> Ratio {
    Ratio { num: a.num * b.den, den: a.den * b.num }
}

/// Negation.
pub open spec fn ratio_neg(a: Ratio) -> Ratio {
    Ratio { num: -a.num, den: a.den }
}

/// Absolute value.
pub open spec fn ratio_abs(a: Ratio) -> Ratio {
    Ratio { num: if a.num < 0 { -a.num } else { a.num }, den: a.den }
}

/// Value equality by cross-multiplication.
pub open spec fn ratio_eq(a: Ratio, b: Ratio) -> bool {
    a.num * b.den == b.num * a.den
}

/// Strict order by cross-multiplication (for well-formed ratios).
pub open spec fn ratio_lt(a: Ratio, b: Ratio) -> bool {
    a.num * b.den < b.num * a.den
}

/// Non-strict order by cross-multiplication (for well-formed ratios).
pub open spec fn ratio_le(a: Ratio, b: Ratio) -> bool {
    a.num * b.den <= b.num * a.den
}

/// Whether `x` fits the machine integers that carry a ratio.
pub open spec fn fits_i128(x: int) -> bool {
    i128::MIN as int <= x <= i128::MAX as int
}

/// A ratio whose components are small enough that cross-multiplying two such
/// ratios cannot overflow the machine integers.
pub open spec fn cmp_bounded(q: Ratio) -> bool {
    &&& -1000000000000000000 <= q.num <= 1000000000000000000
    &&& 1 <= q.den <= 1000000000000000000
}

/// `|x| <= bx` and `|y| <= b2` bound the product `x * y` by `bx * b2`.
pub proof fn lemma_mul_bound(x: int, y: int, bx: int, b2: int) by (nonlinear_arith)
    requires
        -bx <= x <= bx,
        -b2 <= y <= b2,
        0 <= bx,
        0 <= b2,
    ensures
        -(bx * b2) <= x * y <= bx * b2,
{
}

/// The product of two positive integers is positive.
pub proof fn lemma_pos_mul_pos(a: int, b: int) by (nonlinear_arith)
    requires
        a >= 1,
        b >= 1,
    ensures
        a * b >= 1,
{
}

/// An exact rational number: `num / den` with `den >= 1`, not necessarily
/// reduced.
#[derive(Clone, Copy, Debug)]
pub struct Rational {
    num: i128,
    den: i128,
}

impl View for Rational {
    type V = Ratio;

    closed spec fn view(&self) -> Ratio {
        Ratio { num: self.num as int, den: self.den as int }
    }
}

impl Rational {
    /// Builds the rational `num / den`.
    pub fn new(num: i128, den: i128) -> (r: Rational)
        requires
            den >= 1,
        ensures
            r@ == ratio_of(num as int, den as int),
    {
        Rational { num, den }
    }

    /// The numerator as stored.
    pub fn num(&self) -> (r: i128)
        ensures
            r as int == self@.num,
    {
        self.num
    }

    /// The denominator as stored.
    pub fn den(&self) -> (r: i128)
        ensures
            r as int == self@.den,
    {
        self.den
    }

    /// Exact product of two rationals.
    pub fn mul(&self, other: &Rational) -> (r: Rational)
        requires
            self@.wf(),
            other@.wf(),
            fits_i128(self@.num * other@.num),
            fits_i128(self@.den * other@.den),
        ensures
            r@ == ratio_mul(self@, other@),
            r@.wf(),
    {
        proof {
            lemma_pos_mul_pos(self@.den, other@.den);
        }
        Rational { num: self.num * other.num, den: self.den * other.den }
    }

    /// Exact sum of two rationals.
    pub fn add(&self, other: &Rational) -> (r: Rational)
        requires
            self@.wf(),
            other@.wf(),
            fits_i128(self@.num * other@.den),
            fits_i128(other@.num * self@.den),
            fits_i128(self@.num * other@.den + other@.num * self@.den),
            fits_i128(self@.den * other@.den),
        ensures
            r@ == ratio_add(self@, other@),
            r@.wf(),
    {
        proof {
            lemma_pos_mul_pos(self@.den, other@.den);
        }
        Rational { num: self.num * other.den + other.num * self.den, den: self.den * other.den }
    }

    /// Exact difference of two rationals.
    pub fn sub(&self, other: &Rational) -> (r: Rational)
        requires
            self@.wf(),
            other@.wf(),
            fits_i128(self@.num * other@.den),
            fits_i128(other@.num * self@.den),
            fits_i128(self@.num * other@.den - other@.num * self@.den),
            fits_i128(self@.den * other@.den),
        ensures
            r@ == ratio_sub(self@, other@),
            r@.wf(),
    {
        proof {
            lemma_pos_mul_pos(self@.den, other@.den);
        }
        Rational { num: self.num * other.den - other.num * self.den, den: self.den * other.den }
    }

    /// Exact quotient of two rationals; the divisor must be positive.
    pub fn div(&self, other: &Rational) -> (r: Rational)
        requires
            self@.wf(),
            other@.num >= 1,
            fits_i128(self@.num * other@.den),
            fits_i128(self@.den * other@.num),
        ensures
            r@ == ratio_div(self@, other@),
            r@.wf(),
    {
        proof {
            lemma_pos_mul_pos(self@.den, other@.num);
        }
        Rational { num: self.num * other.den, den: self.den * other.num }
    }

    /// Absolute value.
    pub fn abs(&self) -> (r: Rational)
        requires
            self@.wf(),
            fits_i128(-self@.num),
        ensures
            r@ == ratio_abs(self@),
            r@.wf(),
    {
        if self.num < 0 {
            Rational { num: -self.num, den: self.den }
        } else {
            *self
        }
    }

    /// Strict comparison of the denoted values.
    pub fn lt(&self, other: &Rational) -> (r: bool)
        requires
            cmp_bounded(self@),
            cmp_bounded(other@),
        ensures
            r == ratio_lt(self@, other@),
    {
        proof {
            lemma_mul_bound(self@.num, other@.den, 1000000000000000000, 1000000000000000000);
            lemma_mul_bound(other@.num, self@.den, 1000000000000000000, 1000000000000000000);
        }
        self.num * other.den < other.num * self.den
    }

    /// Non-strict comparison of the denoted values.
    pub fn le(&self, other: &Rational) -> (r: bool)
        requires
            cmp_bounded(self@),
            cmp_bounded(other@),
        ensures
            r == ratio_le(self@, other@),
    {
        proof {
            lemma_mul_bound(self@.num, other@.den, 1000000000000000000, 1000000000000000000);
            lemma_mul_bound(other@.num, self@.den, 1000000000000000000, 1000000000000000000);
        }
        self.num * other.den <= other.num * self.den
    }

    /// Whether the two rationals denote the same value.
    pub fn is_eq(&self, other: &Rational) -> (r: bool)
        requires
            cmp_bounded(self@),
            cmp_bounded(other@),
        ensures
            r == ratio_eq(self@, other@),
    {
        proof {
            lemma_mul_bound(self@.num, other@.den, 1000000000000000000, 1000000000000000000);
            lemma_mul_bound(other@.num, self@.den, 1000000000000000000, 1000000000000000000);
        }
        self.num * other.den == other.num * self.den
    }
}

} // verus!
