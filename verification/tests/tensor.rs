use mpm_core::basis::Basis;
use mpm_core::basis::BasisFunction;
use mpm_core::basis::CubicSpline;
use mpm_core::basis::PiecewiseLinear;
use mpm_core::basis::Vector;
use mpm_core::rational::Rational;

fn rat(num: i128, den: i128) -> Rational {
    Rational::new(num, den)
}

#[test]
fn vector_accessors() {
    let v: Vector<Rational, 3> = Vector::new([rat(1, 2), rat(3, 4), rat(5, 6)]);
    assert!(v.x().is_eq(&rat(1, 2)));
    assert!(v.y().is_eq(&rat(3, 4)));
    assert!(v.z().is_eq(&rat(5, 6)));
    assert!(v.index(0).is_eq(&rat(1, 2)));
    assert!(v.index(1).is_eq(&rat(3, 4)));
    assert!(v.index(2).is_eq(&rat(5, 6)));
}

#[test]
fn basis_1d_forwards_kernel() {
    let b: Basis<PiecewiseLinear, 1> = Basis::new(1, PiecewiseLinear);
    assert!(b.evaluate(&rat(1, 4)).is_eq(&rat(3, 4)));
    assert!(b.derivative(&rat(1, 4)).is_eq(&rat(-1, 1)));
    let c: Basis<CubicSpline, 1> = Basis::new(1, CubicSpline);
    assert!(c.evaluate(&rat(0, 1)).is_eq(&rat(2, 3)));
}

#[test]
fn basis_2d_hat_values() {
    let b: Basis<PiecewiseLinear, 2> = Basis::new(2, PiecewiseLinear);
    let at = |x: Rational, y: Rational| b.evaluate(&Vector::new([x, y]));
    assert!(at(rat(0, 1), rat(0, 1)).is_eq(&rat(1, 1)));
    assert!(at(rat(1, 1), rat(0, 1)).is_eq(&rat(0, 1)));
    assert!(at(rat(1, 2), rat(1, 2)).is_eq(&rat(1, 4)));
}

#[test]
fn basis_2d_gradient_ordering() {
    // Component 0 pairs the derivative along y with the value along x, and
    // component 1 the derivative along x with the value along y.
    let b: Basis<PiecewiseLinear, 2> = Basis::new(2, PiecewiseLinear);
    let g = b.derivative(&Vector::new([rat(1, 4), rat(1, 2)]));
    assert!(g.x().is_eq(&rat(-3, 4)));
    assert!(g.y().is_eq(&rat(-1, 2)));
}

#[test]
fn basis_3d_separable_product_hat() {
    let b: Basis<PiecewiseLinear, 3> = Basis::new(3, PiecewiseLinear);
    let k = PiecewiseLinear;
    let pts: [(i128, i128, i128, i128, i128, i128); 6] = [
        (3, 16, -1, 2, 7, 8),
        (-5, 4, 2, 3, -1, 8),
        (1, 50, -49, 50, 1, 1),
        (-7, 4, 7, 4, 1, 2),
        (1, 3, -1, 6, 29, 16),
        (0, 1, 0, 1, 0, 1),
    ];
    for (xn, xd, yn, yd, zn, zd) in pts {
        let (x, y, z) = (rat(xn, xd), rat(yn, yd), rat(zn, zd));
        let got = b.evaluate(&Vector::new([x, y, z]));
        let expected = k.evaluate(&x).mul(&k.evaluate(&y)).mul(&k.evaluate(&z));
        assert_eq!(got.num(), expected.num());
        assert_eq!(got.den(), expected.den());
    }
}

#[test]
fn basis_3d_separable_product_cubic() {
    let b: Basis<CubicSpline, 3> = Basis::new(3, CubicSpline);
    let k = CubicSpline;
    let pts: [(i128, i128, i128, i128, i128, i128); 6] = [
        (3, 16, -1, 2, 7, 8),
        (-5, 4, 2, 3, -15, 8),
        (1, 50, -99, 50, 1, 1),
        (-7, 4, 7, 4, 1, 2),
        (1, 3, -1, 6, 29, 16),
        (4, 3, 199, 50, 0, 1),
    ];
    for (xn, xd, yn, yd, zn, zd) in pts {
        let (x, y, z) = (rat(xn, xd), rat(yn, yd), rat(zn, zd));
        let got = b.evaluate(&Vector::new([x, y, z]));
        let expected = k.evaluate(&x).mul(&k.evaluate(&y)).mul(&k.evaluate(&z));
        assert_eq!(got.num(), expected.num());
        assert_eq!(got.den(), expected.den());
    }
}

#[test]
fn basis_3d_gradient_product_rule() {
    let b: Basis<CubicSpline, 3> = Basis::new(3, CubicSpline);
    let k = CubicSpline;
    let (x, y, z) = (rat(3, 16), rat(-1, 2), rat(7, 8));
    let g = b.derivative(&Vector::new([x, y, z]));
    let c0 = k.derivative(&x).mul(&k.evaluate(&y)).mul(&k.evaluate(&z));
    let c1 = k.derivative(&y).mul(&k.evaluate(&x)).mul(&k.evaluate(&z));
    let c2 = k.derivative(&z).mul(&k.evaluate(&x)).mul(&k.evaluate(&y));
    assert_eq!(g.x().num(), c0.num());
    assert_eq!(g.x().den(), c0.den());
    assert_eq!(g.y().num(), c1.num());
    assert_eq!(g.y().den(), c1.den());
    assert_eq!(g.z().num(), c2.num());
    assert_eq!(g.z().den(), c2.den());
}
