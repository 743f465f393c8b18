use mpm_core::basis::BasisFunction;
use mpm_core::basis::CubicSpline;
use mpm_core::basis::PiecewiseLinear;
use mpm_core::rational::Rational;

fn rat(num: i128, den: i128) -> Rational {
    Rational::new(num, den)
}

fn to_f64(r: &Rational) -> f64 {
    r.num() as f64 / r.den() as f64
}

#[test]
fn hat_unit_at_origin() {
    let k = PiecewiseLinear;
    assert!(k.evaluate(&rat(0, 1)).is_eq(&rat(1, 1)));
}

#[test]
fn hat_zero_outside_support() {
    let k = PiecewiseLinear;
    for x in [rat(1, 1), rat(-1, 1), rat(3, 2), rat(-3, 2), rat(2, 1), rat(4, 1)] {
        assert!(k.evaluate(&x).is_eq(&rat(0, 1)));
    }
}

#[test]
fn hat_interior_values() {
    let k = PiecewiseLinear;
    assert!(k.evaluate(&rat(1, 2)).is_eq(&rat(1, 2)));
    assert!(k.evaluate(&rat(-1, 2)).is_eq(&rat(1, 2)));
    assert!(k.evaluate(&rat(1, 4)).is_eq(&rat(3, 4)));
}

#[test]
fn hat_continuous_at_support_edge() {
    let k = PiecewiseLinear;
    // Approaching |x| = 1 from inside, the value tends to the outside value 0.
    assert!(k.evaluate(&rat(127, 128)).is_eq(&rat(1, 128)));
    assert!(k.evaluate(&rat(-127, 128)).is_eq(&rat(1, 128)));
    assert!(k.evaluate(&rat(1, 1)).is_eq(&rat(0, 1)));
    // Symmetric around the origin.
    assert!(k.evaluate(&rat(1, 128)).is_eq(&k.evaluate(&rat(-1, 128))));
}

#[test]
fn hat_derivative_values() {
    let k = PiecewiseLinear;
    assert!(k.derivative(&rat(-1, 2)).is_eq(&rat(1, 1)));
    assert!(k.derivative(&rat(-1, 1)).is_eq(&rat(1, 1)));
    assert!(k.derivative(&rat(0, 1)).is_eq(&rat(-1, 1)));
    assert!(k.derivative(&rat(1, 2)).is_eq(&rat(-1, 1)));
    assert!(k.derivative(&rat(1, 1)).is_eq(&rat(-1, 1)));
    assert!(k.derivative(&rat(3, 2)).is_eq(&rat(0, 1)));
    assert!(k.derivative(&rat(-3, 2)).is_eq(&rat(0, 1)));
}

#[test]
fn cubic_two_thirds_at_origin() {
    let k = CubicSpline;
    assert!(k.evaluate(&rat(0, 1)).is_eq(&rat(2, 3)));
}

#[test]
fn cubic_even_symmetry() {
    let k = CubicSpline;
    for x in [rat(1, 2), rat(3, 4), rat(5, 4), rat(7, 4), rat(2, 1), rat(9, 4)] {
        let neg = rat(-x.num(), x.den());
        assert!(k.evaluate(&x).is_eq(&k.evaluate(&neg)));
    }
}

#[test]
fn cubic_zero_outside_support() {
    let k = CubicSpline;
    for x in [rat(2, 1), rat(-2, 1), rat(5, 2), rat(-5, 2), rat(4, 1)] {
        assert!(k.evaluate(&x).is_eq(&rat(0, 1)));
    }
}

#[test]
fn cubic_pieces_agree_at_one() {
    let k = CubicSpline;
    // (1/2) - 1 + 2/3 = (-1/6) + 1 - 2 + 4/3 = 1/6.
    assert!(k.evaluate(&rat(1, 1)).is_eq(&rat(1, 6)));
    assert!(k.evaluate(&rat(-1, 1)).is_eq(&rat(1, 6)));
    // Approaching from both sides stays near 1/6.
    let inner = to_f64(&k.evaluate(&rat(127, 128)));
    let outer = to_f64(&k.evaluate(&rat(129, 128)));
    assert!((inner - 1.0 / 6.0).abs() < 0.05);
    assert!((outer - 1.0 / 6.0).abs() < 0.05);
}

#[test]
fn cubic_interior_value() {
    let k = CubicSpline;
    // (1/2)(1/8) - 1/4 + 2/3 = 23/48 at x = 1/2.
    assert!(k.evaluate(&rat(1, 2)).is_eq(&rat(23, 48)));
    // (-1/6)(27/8) + 9/4 - 3 + 4/3 = 1/48 at x = 3/2.
    assert!(k.evaluate(&rat(3, 2)).is_eq(&rat(1, 48)));
}

fn check_central_difference<K: BasisFunction>(k: &K, nums: &[i128]) {
    // h = 1/128; every sample point is taken with x - h and x + h in a
    // region where evaluate is continuous, so the central difference
    // approximates the analytic derivative to within 1e-4.
    for &n in nums {
        let x = rat(n, 128);
        let xp = rat(n + 1, 128);
        let xm = rat(n - 1, 128);
        let diff = (to_f64(&k.evaluate(&xp)) - to_f64(&k.evaluate(&xm))) / (2.0 / 128.0);
        let analytic = to_f64(&k.derivative(&x));
        assert!(
            (diff - analytic).abs() < 1e-4,
            "at {}/128: central {} vs analytic {}",
            n,
            diff,
            analytic
        );
    }
}

#[test]
fn hat_derivative_matches_central_difference() {
    // Samples span both linear pieces and the outside, approaching the
    // region boundaries at -1, 0 and 1 from each side.
    let k = PiecewiseLinear;
    check_central_difference(
        &k,
        &[-127, -65, -64, -2, -1, 1, 2, 64, 127, 129, 192, 255, -129, -192],
    );
}

#[test]
fn cubic_derivative_matches_central_difference() {
    // Samples span both polynomial pieces and the outside, approaching the
    // region boundaries at 1 and 2 (and their mirrors) from each side.
    let k = CubicSpline;
    check_central_difference(
        &k,
        &[-257, -255, -192, -129, -127, -64, -2, 2, 64, 127, 129, 192, 255, 257, 300],
    );
}
