//! Interpolation (shape) basis functions.
//!
//! A one-dimensional kernel (`BasisFunction`) is a compactly supported,
//! piecewise-polynomial function of a single rational offset, together with
//! its analytic derivative. `Basis` lifts one kernel into a separable
//! tensor-product basis in 1, 2 or 3 spatial dimensions.
//!
//! All evaluation is exact: inputs and results are `Rational`, and each
//! executable function is proved to return precisely the piecewise closed
//! form stated by its spec function.

use vstd::prelude::*;

use crate::rational::Rational;
use crate::rational::Ratio;
use crate::rational::ratio_of;
use crate::rational::ratio_mul;
use crate::rational::ratio_add;
use crate::rational::ratio_sub;
use crate::rational::ratio_div;
use crate::rational::ratio_neg;
use crate::rational::ratio_abs;
use crate::rational::ratio_eq;
use crate::rational::ratio_lt;
use crate::rational::ratio_le;

verus! {

/// An ordered tuple of exactly `N` scalars with positional accessors.
/// `x`/`y` are available only when `N >= 2`, and `z` only when `N >= 3`;
/// an ineligible access is rejected when the caller is verified.
pub struct Vector<T, const N: usize> {
    components: [T; N],
}

impl<T, const N: usize> Vector<T, N> {
    /// The components in order.
    pub closed spec fn vals(self) -> Seq<T> {
        self.components@
    }

    /// Builds a vector from exactly `N` scalars.
    pub fn new(components: [T; N]) -> (v: Self)
        ensures
            v.vals() == components@,
    {
        Vector { components }
    }
}

impl<T: Copy, const N: usize> Vector<T, N> {
    /// First component; only for vectors of at least two components.
    pub fn x(&self) -> (r: T)
        requires
            N >= 2,
        ensures
            r == self.vals()[0],
    {
        self.components[0]
    }

    /// Second component; only for vectors of at least two components.
    pub fn y(&self) -> (r: T)
        requires
            N >= 2,
        ensures
            r == self.vals()[1],
    {
        self.components[1]
    }

    /// Third component; only for vectors of at least three components.
    pub fn z(&self) -> (r: T)
        requires
            N >= 3,
        ensures
            r == self.vals()[2],
    {
        self.components[2]
    }

    /// The `i`-th component; `i` must be in range.
    pub fn index(&self, i: usize) -> (r: T)
        requires
            i < N,
        ensures
            r == self.vals()[i as int],
    {
        self.components[i]
    }
}

/// The kernels' argument domain: what the machine integers carrying the
/// exact rational arithmetic can accommodate. A denominator up to 128
/// admits sample points fine enough for finite-difference checks, and a
/// numerator up to 512 covers offsets well beyond both kernels' supports.
pub open spec fn in_eval_domain(q: Ratio) -> bool {
    &&& 1 <= q.den <= 128
    &&& -512 <= q.num <= 512
}

/// The tighter argument domain for tensor-product evaluation, where up to
/// three kernel results are multiplied without overflowing the machine
/// integers.
pub open spec fn in_tensor_domain(q: Ratio) -> bool {
    &&& 1 <= q.den <= 50
    &&& -200 <= q.num <= 200
}

/// Bound on a kernel value computed from a tensor-domain argument; three
/// such values can be multiplied exactly.
pub open spec fn value_bounded(q: Ratio) -> bool {
    &&& -4000000000000 <= q.num <= 4000000000000
    &&& 1 <= q.den <= 500000000000
}

/// Bound on a kernel derivative computed from a tensor-domain argument; one
/// such slope times two bounded values stays exact.
pub open spec fn slope_bounded(q: Ratio) -> bool {
    &&& -10000000 <= q.num <= 10000000
    &&& 1 <= q.den <= 1000000
}

/// A one-dimensional interpolation kernel: a pure value function and its
/// analytic derivative, both exact over rationals.
pub trait BasisFunction: Sized {
    /// The exact kernel value at `x`.
    spec fn value_of(self, x: Ratio) -> Ratio;

    /// The exact kernel derivative at `x`.
    spec fn slope_of(self, x: Ratio) -> Ratio;

    /// Evaluates the kernel at `x`.
    fn evaluate(&self, x: &Rational) -> (r: Rational)
        requires
            in_eval_domain(x@),
        ensures
            r@ == self.value_of(x@),
            r@.wf(),
            in_tensor_domain(x@) ==> value_bounded(r@),
    ;

    /// Evaluates the kernel's derivative at `x`.
    fn derivative(&self, x: &Rational) -> (r: Rational)
        requires
            in_eval_domain(x@),
        ensures
            r@ == self.slope_of(x@),
            r@.wf(),
            in_tensor_domain(x@) ==> slope_bounded(r@),
    ;
}

/// Piecewise-linear "hat" value: `1 - |x|` on `0 <= |x| < 1`, else `0`.
pub open spec fn piecewise_linear_value(x: Ratio) -> Ratio {
    let a = ratio_abs(x);
    if ratio_le(ratio_of(0, 1), a) && ratio_lt(a, ratio_of(1, 1)) {
        ratio_sub(ratio_of(1, 1), a)
    } else {
        ratio_of(0, 1)
    }
}

/// Piecewise-linear "hat" derivative: `1` on `-1 <= x < 0`, `-1` on
/// `0 <= x <= 1`, else `0`.
pub open spec fn piecewise_linear_slope(x: Ratio) -> Ratio {
    if ratio_le(ratio_of(-1, 1), x) && ratio_lt(x, ratio_of(0, 1)) {
        ratio_of(1, 1)
    } else if ratio_le(ratio_of(0, 1), x) && ratio_le(x, ratio_of(1, 1)) {
        ratio_of(-1, 1)
    } else {
        ratio_of(0, 1)
    }
}

/// The cubic B-spline's inner piece `(1/2)a^3 - a^2 + 2/3`, as a function of
/// the absolute offset `a`.
pub open spec fn cubic_inner_value(a: Ratio) -> Ratio {
    ratio_add(
        ratio_sub(ratio_mul(ratio_of(1, 2), ratio_mul(ratio_mul(a, a), a)), ratio_mul(a, a)),
        ratio_of(2, 3),
    )
}

/// The cubic B-spline's outer piece `(-1/6)a^3 + a^2 - 2a + 4/3`, as a
/// function of the absolute offset `a`.
pub open spec fn cubic_outer_value(a: Ratio) -> Ratio {
    ratio_add(
        ratio_sub(
            ratio_add(
                ratio_mul(ratio_of(-1, 6), ratio_mul(ratio_mul(a, a), a)),
                ratio_mul(a, a),
            ),
            ratio_mul(ratio_of(2, 1), a),
        ),
        ratio_of(4, 3),
    )
}

/// Cubic B-spline value: the inner piece on `0 <= |x| < 1`, the outer piece
/// on `1 <= |x| <= 2`, else `0`.
pub open spec fn cubic_value(x: Ratio) -> Ratio {
    let a = ratio_abs(x);
    if ratio_le(ratio_of(0, 1), a) && ratio_lt(a, ratio_of(1, 1)) {
        cubic_inner_value(a)
    } else if ratio_le(ratio_of(1, 1), a) && ratio_le(a, ratio_of(2, 1)) {
        cubic_outer_value(a)
    } else {
        ratio_of(0, 1)
    }
}

/// Cubic B-spline derivative: `x ((3/2)|x| - 2)` on `0 <= |x| < 1`,
/// `x (2 - (1/2)|x| - 2/|x|)` on `1 <= |x| <= 2`, else `0`.
pub open spec fn cubic_slope(x: Ratio) -> Ratio {
    let a = ratio_abs(x);
    if ratio_le(ratio_of(0, 1), a) && ratio_lt(a, ratio_of(1, 1)) {
        ratio_mul(x, ratio_sub(ratio_mul(ratio_of(3, 2), a), ratio_of(2, 1)))
    } else if ratio_le(ratio_of(1, 1), a) && ratio_le(a, ratio_of(2, 1)) {
        ratio_mul(
            x,
            ratio_sub(ratio_sub(ratio_of(2, 1), ratio_mul(ratio_of(1, 2), a)), ratio_div(ratio_of(2, 1), a)),
        )
    } else {
        ratio_of(0, 1)
    }
}

/// The piecewise-linear "hat" kernel, supported on `[-1, 1]`.
#[derive(Default)]
pub struct PiecewiseLinear;

impl BasisFunction for PiecewiseLinear {
    open spec fn value_of(self, x: Ratio) -> Ratio {
        piecewise_linear_value(x)
    }

    open spec fn slope_of(self, x: Ratio) -> Ratio {
        piecewise_linear_slope(x)
    }

    fn evaluate(&self, x: &Rational) -> (r: Rational) {
        let zero = Rational::new(0, 1);
        let one = Rational::new(1, 1);
        let a = x.abs();
        if zero.le(&a) && a.lt(&one) {
            one.sub(&a)
        } else {
            zero
        }
    }

    fn derivative(&self, x: &Rational) -> (r: Rational) {
        let zero = Rational::new(0, 1);
        let one = Rational::new(1, 1);
        let neg_one = Rational::new(-1, 1);
        if neg_one.le(x) && x.lt(&zero) {
            one
        } else if zero.le(x) && x.le(&one) {
            neg_one
        } else {
            zero
        }
    }
}

/// The cubic B-spline kernel, supported on `[-2, 2]`.
#[derive(Default)]
pub struct CubicSpline;

impl BasisFunction for CubicSpline {
    open spec fn value_of(self, x: Ratio) -> Ratio {
        cubic_value(x)
    }

    open spec fn slope_of(self, x: Ratio) -> Ratio {
        cubic_slope(x)
    }

    fn evaluate(&self, x: &Rational) -> (r: Rational) {
        let zero = Rational::new(0, 1);
        let one = Rational::new(1, 1);
        let two = Rational::new(2, 1);
        let half = Rational::new(1, 2);
        let neg_sixth = Rational::new(-1, 6);
        let two_thirds = Rational::new(2, 3);
        let four_thirds = Rational::new(4, 3);
        let a = x.abs();
        if zero.le(&a) && a.lt(&one) {
            proof {
                assert(0 <= a@.num * a@.num <= 16384 && 1 <= a@.den * a@.den <= 16384)
                    by (nonlinear_arith)
                    requires
                        0 <= a@.num < a@.den <= 128,
                ;
            }
            let a2 = a.mul(&a);
            proof {
                assert(0 <= a2@.num * a@.num <= 2097152 && 1 <= a2@.den * a@.den <= 2097152)
                    by (nonlinear_arith)
                    requires
                        0 <= a2@.num <= 16384,
                        1 <= a2@.den <= 16384,
                        0 <= a@.num <= 128,
                        1 <= a@.den <= 128,
                ;
            }
            let a3 = a2.mul(&a);
            proof {
                assert(0 <= half@.num * a3@.num <= 2097152 && 1 <= half@.den * a3@.den <= 4194304)
                    by (nonlinear_arith)
                    requires
                        half@.num == 1,
                        half@.den == 2,
                        0 <= a3@.num <= 2097152,
                        1 <= a3@.den <= 2097152,
                ;
            }
            let t = half.mul(&a3);
            proof {
                assert(0 <= t@.num * a2@.den <= 34359738368
                    && 0 <= a2@.num * t@.den <= 68719476736
                    && 1 <= t@.den * a2@.den <= 68719476736) by (nonlinear_arith)
                    requires
                        0 <= t@.num <= 2097152,
                        1 <= t@.den <= 4194304,
                        0 <= a2@.num <= 16384,
                        1 <= a2@.den <= 16384,
                ;
            }
            let t2 = t.sub(&a2);
            proof {
                assert(-309237645312 <= t2@.num * two_thirds@.den <= 309237645312
                    && 0 <= two_thirds@.num * t2@.den <= 137438953472
                    && 1 <= t2@.den * two_thirds@.den <= 206158430208) by (nonlinear_arith)
                    requires
                        two_thirds@.num == 2,
                        two_thirds@.den == 3,
                        -103079215104 <= t2@.num <= 103079215104,
                        1 <= t2@.den <= 68719476736,
                ;
            }
            t2.add(&two_thirds)
        } else if one.le(&a) && a.le(&two) {
            proof {
                assert(0 <= a@.num * a@.num <= 65536 && 1 <= a@.den * a@.den <= 16384)
                    by (nonlinear_arith)
                    requires
                        0 <= a@.num <= 256,
                        1 <= a@.den <= 128,
                        a@.num <= 2 * a@.den,
                ;
            }
            let a2 = a.mul(&a);
            proof {
                assert(0 <= a2@.num * a@.num <= 16777216 && 1 <= a2@.den * a@.den <= 2097152)
                    by (nonlinear_arith)
                    requires
                        0 <= a2@.num <= 65536,
                        1 <= a2@.den <= 16384,
                        0 <= a@.num <= 256,
                        1 <= a@.den <= 128,
                ;
            }
            let a3 = a2.mul(&a);
            proof {
                assert(-16777216 <= neg_sixth@.num * a3@.num <= 0
                    && 1 <= neg_sixth@.den * a3@.den <= 12582912) by (nonlinear_arith)
                    requires
                        neg_sixth@.num == -1,
                        neg_sixth@.den == 6,
                        0 <= a3@.num <= 16777216,
                        1 <= a3@.den <= 2097152,
                ;
            }
            let t1 = neg_sixth.mul(&a3);
            proof {
                assert(-274877906944 <= t1@.num * a2@.den <= 0
                    && 0 <= a2@.num * t1@.den <= 824633720832
                    && 1 <= t1@.den * a2@.den <= 206158430208) by (nonlinear_arith)
                    requires
                        -16777216 <= t1@.num <= 0,
                        1 <= t1@.den <= 12582912,
                        0 <= a2@.num <= 65536,
                        1 <= a2@.den <= 16384,
                ;
            }
            let t2 = t1.add(&a2);
            proof {
                assert(0 <= two@.num * a@.num <= 512 && 1 <= two@.den * a@.den <= 128)
                    by (nonlinear_arith)
                    requires
                        two@.num == 2,
                        two@.den == 1,
                        0 <= a@.num <= 256,
                        1 <= a@.den <= 128,
                ;
            }
            let two_a = two.mul(&a);
            proof {
                assert(-105553116266496 <= t2@.num * two_a@.den <= 105553116266496
                    && 0 <= two_a@.num * t2@.den <= 105553116266496
                    && 1 <= t2@.den * two_a@.den <= 26388279066624) by (nonlinear_arith)
                    requires
                        -824633720832 <= t2@.num <= 824633720832,
                        1 <= t2@.den <= 206158430208,
                        0 <= two_a@.num <= 512,
                        1 <= two_a@.den <= 128,
                ;
            }
            let t3 = t2.sub(&two_a);
            proof {
                assert(-633318697598976 <= t3@.num * four_thirds@.den <= 633318697598976
                    && 0 <= four_thirds@.num * t3@.den <= 105553116266496
                    && 1 <= t3@.den * four_thirds@.den <= 79164837199872) by (nonlinear_arith)
                    requires
                        four_thirds@.num == 4,
                        four_thirds@.den == 3,
                        -211106232532992 <= t3@.num <= 211106232532992,
                        1 <= t3@.den <= 26388279066624,
                ;
            }
            let r = t3.add(&four_thirds);
            proof {
                if in_tensor_domain(x@) {
                    assert(0 <= a2@.num <= 10000 && 1 <= a2@.den <= 2500) by (nonlinear_arith)
                        requires
                            a2@.num == a@.num * a@.num,
                            a2@.den == a@.den * a@.den,
                            0 <= a@.num <= 100,
                            1 <= a@.den <= 50,
                    ;
                    assert(0 <= a3@.num <= 1000000 && 1 <= a3@.den <= 125000) by (nonlinear_arith)
                        requires
                            a3@.num == a2@.num * a@.num,
                            a3@.den == a2@.den * a@.den,
                            0 <= a2@.num <= 10000,
                            1 <= a2@.den <= 2500,
                            0 <= a@.num <= 100,
                            1 <= a@.den <= 50,
                    ;
                    assert(-1000000 <= t1@.num <= 0 && 1 <= t1@.den <= 750000) by (nonlinear_arith)
                        requires
                            t1@.num == neg_sixth@.num * a3@.num,
                            t1@.den == neg_sixth@.den * a3@.den,
                            neg_sixth@.num == -1,
                            neg_sixth@.den == 6,
                            0 <= a3@.num <= 1000000,
                            1 <= a3@.den <= 125000,
                    ;
                    assert(-2500000000 <= t2@.num <= 7500000000
                        && 1 <= t2@.den <= 1875000000) by (nonlinear_arith)
                        requires
                            t2@.num == t1@.num * a2@.den + a2@.num * t1@.den,
                            t2@.den == t1@.den * a2@.den,
                            -1000000 <= t1@.num <= 0,
                            1 <= t1@.den <= 750000,
                            0 <= a2@.num <= 10000,
                            1 <= a2@.den <= 2500,
                    ;
                    assert(-500000000000 <= t3@.num <= 500000000000
                        && 1 <= t3@.den <= 93750000000) by (nonlinear_arith)
                        requires
                            t3@.num == t2@.num * two_a@.den - two_a@.num * t2@.den,
                            t3@.den == t2@.den * two_a@.den,
                            -2500000000 <= t2@.num <= 7500000000,
                            1 <= t2@.den <= 1875000000,
                            0 <= two_a@.num <= 200,
                            1 <= two_a@.den <= 50,
                    ;
                    assert(value_bounded(r@));
                }
            }
            r
        } else {
            zero
        }
    }

    fn derivative(&self, x: &Rational) -> (r: Rational) {
        let zero = Rational::new(0, 1);
        let one = Rational::new(1, 1);
        let two = Rational::new(2, 1);
        let half = Rational::new(1, 2);
        let three_halves = Rational::new(3, 2);
        let a = x.abs();
        if zero.le(&a) && a.lt(&one) {
            proof {
                assert(0 <= three_halves@.num * a@.num <= 384
                    && 1 <= three_halves@.den * a@.den <= 256) by (nonlinear_arith)
                    requires
                        three_halves@.num == 3,
                        three_halves@.den == 2,
                        0 <= a@.num < a@.den <= 128,
                ;
            }
            let s = three_halves.mul(&a);
            proof {
                assert(-512 <= s@.num * two@.den <= 384
                    && 0 <= two@.num * s@.den <= 512
                    && 1 <= s@.den * two@.den <= 256) by (nonlinear_arith)
                    requires
                        two@.num == 2,
                        two@.den == 1,
                        0 <= s@.num <= 384,
                        1 <= s@.den <= 256,
                ;
            }
            let t = s.sub(&two);
            proof {
                assert(-131072 <= x@.num * t@.num <= 131072
                    && 1 <= x@.den * t@.den <= 32768) by (nonlinear_arith)
                    requires
                        -128 <= x@.num <= 128,
                        1 <= x@.den <= 128,
                        -896 <= t@.num <= 384,
                        1 <= t@.den <= 256,
                ;
            }
            x.mul(&t)
        } else if one.le(&a) && a.le(&two) {
            proof {
                assert(0 <= half@.num * a@.num <= 256 && 1 <= half@.den * a@.den <= 256)
                    by (nonlinear_arith)
                    requires
                        half@.num == 1,
                        half@.den == 2,
                        0 <= a@.num <= 256,
                        1 <= a@.den <= 128,
                        a@.num <= 2 * a@.den,
                ;
            }
            let half_a = half.mul(&a);
            proof {
                assert(-256 <= two@.num * half_a@.den <= 512
                    && 0 <= half_a@.num * two@.den <= 256
                    && 1 <= two@.den * half_a@.den <= 256
                    && two@.num * half_a@.den - half_a@.num * two@.den <= 512
                    && -256 <= two@.num * half_a@.den - half_a@.num * two@.den)
                    by (nonlinear_arith)
                    requires
                        two@.num == 2,
                        two@.den == 1,
                        0 <= half_a@.num <= 256,
                        1 <= half_a@.den <= 256,
                ;
            }
            let s1 = two.sub(&half_a);
            proof {
                assert(0 <= two@.num * a@.den <= 256 && 1 <= two@.den * a@.num <= 256)
                    by (nonlinear_arith)
                    requires
                        two@.num == 2,
                        two@.den == 1,
                        1 <= a@.num <= 256,
                        1 <= a@.den <= 128,
                ;
            }
            let tda = two.div(&a);
            proof {
                assert(-196608 <= s1@.num * tda@.den <= 196608
                    && 0 <= tda@.num * s1@.den <= 65536
                    && 1 <= s1@.den * tda@.den <= 65536) by (nonlinear_arith)
                    requires
                        -256 <= s1@.num <= 768,
                        1 <= s1@.den <= 256,
                        0 <= tda@.num <= 256,
                        1 <= tda@.den <= 256,
                ;
            }
            let s2 = s1.sub(&tda);
            proof {
                assert(-67108864 <= x@.num * s2@.num <= 67108864
                    && 1 <= x@.den * s2@.den <= 8388608) by (nonlinear_arith)
                    requires
                        -256 <= x@.num <= 256,
                        1 <= x@.den <= 128,
                        -262144 <= s2@.num <= 262144,
                        1 <= s2@.den <= 65536,
                ;
            }
            let r = x.mul(&s2);
            proof {
                if in_tensor_domain(x@) {
                    assert(-30000 <= s2@.num <= 30000 && 1 <= s2@.den <= 10000)
                        by (nonlinear_arith)
                        requires
                            s2@.num == s1@.num * tda@.den - tda@.num * s1@.den,
                            s2@.den == s1@.den * tda@.den,
                            -200 <= s1@.num <= 200,
                            1 <= s1@.den <= 100,
                            0 <= tda@.num <= 100,
                            1 <= tda@.den <= 100,
                    ;
                    assert(-3000000 <= r@.num <= 3000000 && 1 <= r@.den <= 500000)
                        by (nonlinear_arith)
                        requires
                            r@.num == x@.num * s2@.num,
                            r@.den == x@.den * s2@.den,
                            -100 <= x@.num <= 100,
                            1 <= x@.den <= 50,
                            -30000 <= s2@.num <= 30000,
                            1 <= s2@.den <= 10000,
                    ;
                    assert(slope_bounded(r@));
                }
            }
            r
        } else {
            zero
        }
    }
}

/// A separable tensor-product basis: one one-dimensional kernel lifted into
/// `D` spatial dimensions. Only `D` in `{1, 2, 3}` carries evaluation
/// methods; other dimensions cannot be evaluated.
pub struct Basis<F: BasisFunction, const D: usize> {
    dimension: usize,
    f: F,
}

impl<F: BasisFunction, const D: usize> Basis<F, D> {
    /// The wrapped one-dimensional kernel.
    pub closed spec fn kernel(self) -> F {
        self.f
    }

    /// The nominal dimension tag stored at construction.
    pub closed spec fn dim(self) -> int {
        self.dimension as int
    }

    /// Wraps a kernel, recording the nominal dimension.
    pub fn new(dimension: usize, f: F) -> (b: Self)
        ensures
            b.kernel() == f,
            b.dim() == dimension as int,
    {
        Basis { dimension, f }
    }
}

impl<F: BasisFunction> Basis<F, 1> {
    /// One-dimensional evaluation: the kernel itself.
    pub fn evaluate(&self, x: &Rational) -> (r: Rational)
        requires
            in_eval_domain(x@),
        ensures
            r@ == self.kernel().value_of(x@),
            r@.wf(),
    {
        self.f.evaluate(x)
    }

    /// One-dimensional derivative: the kernel's derivative.
    pub fn derivative(&self, x: &Rational) -> (r: Rational)
        requires
            in_eval_domain(x@),
        ensures
            r@ == self.kernel().slope_of(x@),
            r@.wf(),
    {
        self.f.derivative(x)
    }
}

impl<F: BasisFunction> Basis<F, 2> {
    /// Two-dimensional evaluation: the separable product
    /// `kernel(x) * kernel(y)`.
    pub fn evaluate(&self, x: &Vector<Rational, 2>) -> (r: Rational)
        requires
            in_tensor_domain(x.vals()[0]@),
            in_tensor_domain(x.vals()[1]@),
        ensures
            r@ == ratio_mul(self.kernel().value_of(x.vals()[0]@), self.kernel().value_of(x.vals()[1]@)),
            r@.wf(),
    {
        let ex = self.f.evaluate(&x.x());
        let ey = self.f.evaluate(&x.y());
        proof {
            assert(-16000000000000000000000000 <= ex@.num * ey@.num <= 16000000000000000000000000
                && 1 <= ex@.den * ey@.den <= 250000000000000000000000) by (nonlinear_arith)
                requires
                    value_bounded(ex@),
                    value_bounded(ey@),
            ;
        }
        ex.mul(&ey)
    }

    /// Two-dimensional gradient. As defined for this basis, component 0 is
    /// `kernel'(y) * kernel(x)` and component 1 is `kernel'(x) * kernel(y)`:
    /// the derivative of the other axis paired with the value of this one.
    pub fn derivative(&self, x: &Vector<Rational, 2>) -> (r: Vector<Rational, 2>)
        requires
            in_tensor_domain(x.vals()[0]@),
            in_tensor_domain(x.vals()[1]@),
        ensures
            r.vals()[0]@ == ratio_mul(self.kernel().slope_of(x.vals()[1]@), self.kernel().value_of(x.vals()[0]@)),
            r.vals()[1]@ == ratio_mul(self.kernel().slope_of(x.vals()[0]@), self.kernel().value_of(x.vals()[1]@)),
            r.vals()[0]@.wf(),
            r.vals()[1]@.wf(),
    {
        let dx = self.f.derivative(&x.x());
        let dy = self.f.derivative(&x.y());
        let ex = self.f.evaluate(&x.x());
        let ey = self.f.evaluate(&x.y());
        proof {
            assert(-40000000000000000000 <= dy@.num * ex@.num <= 40000000000000000000
                && 1 <= dy@.den * ex@.den <= 500000000000000000
                && -40000000000000000000 <= dx@.num * ey@.num <= 40000000000000000000
                && 1 <= dx@.den * ey@.den <= 500000000000000000) by (nonlinear_arith)
                requires
                    slope_bounded(dx@),
                    slope_bounded(dy@),
                    value_bounded(ex@),
                    value_bounded(ey@),
            ;
        }
        let c0 = dy.mul(&ex);
        let c1 = dx.mul(&ey);
        Vector::new([c0, c1])
    }
}

impl<F: BasisFunction> Basis<F, 3> {
    /// Three-dimensional evaluation: the separable product
    /// `kernel(x) * kernel(y) * kernel(z)`.
    pub fn evaluate(&self, x: &Vector<Rational, 3>) -> (r: Rational)
        requires
            in_tensor_domain(x.vals()[0]@),
            in_tensor_domain(x.vals()[1]@),
            in_tensor_domain(x.vals()[2]@),
        ensures
            r@ == ratio_mul(
                ratio_mul(self.kernel().value_of(x.vals()[0]@), self.kernel().value_of(x.vals()[1]@)),
                self.kernel().value_of(x.vals()[2]@),
            ),
            r@.wf(),
    {
        let ex = self.f.evaluate(&x.x());
        let ey = self.f.evaluate(&x.y());
        let ez = self.f.evaluate(&x.z());
        proof {
            assert(-16000000000000000000000000 <= ex@.num * ey@.num <= 16000000000000000000000000
                && 1 <= ex@.den * ey@.den <= 250000000000000000000000) by (nonlinear_arith)
                requires
                    value_bounded(ex@),
                    value_bounded(ey@),
            ;
        }
        let p = ex.mul(&ey);
        proof {
            assert(-64000000000000000000000000000000000000 <= p@.num * ez@.num
                    <= 64000000000000000000000000000000000000
                && 1 <= p@.den * ez@.den <= 125000000000000000000000000000000000)
                by (nonlinear_arith)
                requires
                    -16000000000000000000000000 <= p@.num <= 16000000000000000000000000,
                    1 <= p@.den <= 250000000000000000000000,
                    value_bounded(ez@),
            ;
        }
        p.mul(&ez)
    }

    /// Three-dimensional gradient by the product rule: component `i` is the
    /// kernel derivative along axis `i` times the kernel values along the
    /// other two axes.
    pub fn derivative(&self, x: &Vector<Rational, 3>) -> (r: Vector<Rational, 3>)
        requires
            in_tensor_domain(x.vals()[0]@),
            in_tensor_domain(x.vals()[1]@),
            in_tensor_domain(x.vals()[2]@),
        ensures
            r.vals()[0]@ == ratio_mul(
                ratio_mul(self.kernel().slope_of(x.vals()[0]@), self.kernel().value_of(x.vals()[1]@)),
                self.kernel().value_of(x.vals()[2]@),
            ),
            r.vals()[1]@ == ratio_mul(
                ratio_mul(self.kernel().slope_of(x.vals()[1]@), self.kernel().value_of(x.vals()[0]@)),
                self.kernel().value_of(x.vals()[2]@),
            ),
            r.vals()[2]@ == ratio_mul(
                ratio_mul(self.kernel().slope_of(x.vals()[2]@), self.kernel().value_of(x.vals()[0]@)),
                self.kernel().value_of(x.vals()[1]@),
            ),
            r.vals()[0]@.wf(),
            r.vals()[1]@.wf(),
            r.vals()[2]@.wf(),
    {
        let dx = self.f.derivative(&x.x());
        let dy = self.f.derivative(&x.y());
        let dz = self.f.derivative(&x.z());
        let ex = self.f.evaluate(&x.x());
        let ey = self.f.evaluate(&x.y());
        let ez = self.f.evaluate(&x.z());
        proof {
            assert(-40000000000000000000 <= dx@.num * ey@.num <= 40000000000000000000
                && 1 <= dx@.den * ey@.den <= 500000000000000000
                && -40000000000000000000 <= dy@.num * ex@.num <= 40000000000000000000
                && 1 <= dy@.den * ex@.den <= 500000000000000000
                && -40000000000000000000 <= dz@.num * ex@.num <= 40000000000000000000
                && 1 <= dz@.den * ex@.den <= 500000000000000000) by (nonlinear_arith)
                requires
                    slope_bounded(dx@),
                    slope_bounded(dy@),
                    slope_bounded(dz@),
                    value_bounded(ex@),
                    value_bounded(ey@),
            ;
        }
        let t0 = dx.mul(&ey);
        let t1 = dy.mul(&ex);
        let t2 = dz.mul(&ex);
        proof {
            assert(-160000000000000000000000000000000 <= t0@.num * ez@.num
                    <= 160000000000000000000000000000000
                && 1 <= t0@.den * ez@.den <= 250000000000000000000000000000
                && -160000000000000000000000000000000 <= t1@.num * ez@.num
                    <= 160000000000000000000000000000000
                && 1 <= t1@.den * ez@.den <= 250000000000000000000000000000
                && -160000000000000000000000000000000 <= t2@.num * ey@.num
                    <= 160000000000000000000000000000000
                && 1 <= t2@.den * ey@.den <= 250000000000000000000000000000)
                by (nonlinear_arith)
                requires
                    -40000000000000000000 <= t0@.num <= 40000000000000000000,
                    1 <= t0@.den <= 500000000000000000,
                    -40000000000000000000 <= t1@.num <= 40000000000000000000,
                    1 <= t1@.den <= 500000000000000000,
                    -40000000000000000000 <= t2@.num <= 40000000000000000000,
                    1 <= t2@.den <= 500000000000000000,
                    value_bounded(ey@),
                    value_bounded(ez@),
            ;
        }
        let c0 = t0.mul(&ez);
        let c1 = t1.mul(&ez);
        let c2 = t2.mul(&ey);
        Vector::new([c0, c1, c2])
    }
}

/// The hat kernel vanishes at and beyond the edge of its support:
/// `|x| >= 1` gives value `0`.
pub proof fn lemma_piecewise_linear_outside_support(x: Ratio)
    requires
        x.wf(),
        ratio_le(ratio_of(1, 1), ratio_abs(x)),
    ensures
        piecewise_linear_value(x) == ratio_of(0, 1),
{
}

/// The hat kernel takes value `1` at the origin.
pub proof fn lemma_piecewise_linear_unit_at_origin()
    ensures
        piecewise_linear_value(ratio_of(0, 1)) == ratio_of(1, 1),
{
}

/// The hat kernel is even: its value depends only on `|x|`.
pub proof fn lemma_piecewise_linear_even(x: Ratio)
    ensures
        piecewise_linear_value(ratio_neg(x)) == piecewise_linear_value(x),
{
    assert(ratio_abs(ratio_neg(x)) == ratio_abs(x));
}

/// The hat kernel is continuous at the edge of its support: at `|x| = 1`
/// its linear piece `1 - |x|` meets the outside value `0`.
pub proof fn lemma_piecewise_linear_continuous_at_edge(x: Ratio)
    requires
        x.wf(),
        ratio_eq(ratio_abs(x), ratio_of(1, 1)),
    ensures
        piecewise_linear_value(x) == ratio_of(0, 1),
        ratio_eq(ratio_sub(ratio_of(1, 1), ratio_abs(x)), ratio_of(0, 1)),
{
}

/// The cubic B-spline is even: its value depends only on `|x|`.
pub proof fn lemma_cubic_even(x: Ratio)
    ensures
        cubic_value(ratio_neg(x)) == cubic_value(x),
{
    assert(ratio_abs(ratio_neg(x)) == ratio_abs(x));
}

/// The cubic B-spline takes value `2/3` at the origin.
pub proof fn lemma_cubic_two_thirds_at_origin()
    ensures
        ratio_eq(cubic_value(ratio_of(0, 1)), ratio_of(2, 3)),
{
    assert(ratio_abs(ratio_of(0, 1)) == ratio_of(0, 1));
    assert(cubic_value(ratio_of(0, 1)) == cubic_inner_value(ratio_of(0, 1)));
    let a = ratio_of(0, 1);
    let a2 = ratio_mul(a, a);
    assert(a2.num == 0 && a2.den == 1);
    let a3 = ratio_mul(a2, a);
    assert(a3.num == 0 && a3.den == 1);
    let t = ratio_mul(ratio_of(1, 2), a3);
    assert(t.num == 0 && t.den == 2);
    let t2 = ratio_sub(t, a2);
    assert(t2.num == 0 && t2.den == 2) by (nonlinear_arith)
        requires
            t2.num == t.num * a2.den - a2.num * t.den,
            t2.den == t.den * a2.den,
            t.num == 0,
            t.den == 2,
            a2.num == 0,
            a2.den == 1,
    ;
    let v = ratio_add(t2, ratio_of(2, 3));
    assert(v.num == 4 && v.den == 6) by (nonlinear_arith)
        requires
            v.num == t2.num * 3 + 2 * t2.den,
            v.den == t2.den * 3,
            t2.num == 0,
            t2.den == 2,
    ;
    assert(cubic_inner_value(a) == v);
    assert(ratio_eq(v, ratio_of(2, 3)));
}

/// The cubic B-spline vanishes at and beyond the edge of its support:
/// `|x| >= 2` gives a value equal to `0`.
pub proof fn lemma_cubic_outside_support(x: Ratio)
    requires
        x.wf(),
        ratio_le(ratio_of(2, 1), ratio_abs(x)),
    ensures
        ratio_eq(cubic_value(x), ratio_of(0, 1)),
{
    let a = ratio_abs(x);
    if ratio_le(a, ratio_of(2, 1)) {
        assert(a.num == 2 * a.den);
        assert(ratio_eq(cubic_outer_value(a), ratio_of(0, 1))) by (nonlinear_arith)
            requires
                a.den >= 1,
                a.num == 2 * a.den,
        ;
    }
}

/// The two polynomial pieces of the cubic B-spline agree at `|x| = 1`,
/// where both take the value `1/6`: the kernel is continuous there.
pub proof fn lemma_cubic_pieces_agree_at_one(a: Ratio)
    requires
        a.wf(),
        ratio_eq(a, ratio_of(1, 1)),
    ensures
        ratio_eq(cubic_inner_value(a), ratio_of(1, 6)),
        ratio_eq(cubic_outer_value(a), ratio_of(1, 6)),
{
    assert(a.num == a.den);
    assert(ratio_eq(cubic_inner_value(a), ratio_of(1, 6))) by (nonlinear_arith)
        requires
            a.den >= 1,
            a.num == a.den,
    ;
    assert(ratio_eq(cubic_outer_value(a), ratio_of(1, 6))) by (nonlinear_arith)
        requires
            a.den >= 1,
            a.num == a.den,
    ;
}

} // verus!
