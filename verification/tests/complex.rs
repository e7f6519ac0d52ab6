use complex_numbers::{Algebraic, Polar, Shared, SCALE};

/// Convert a floating-point value into fixed-point units.
fn units(x: f64) -> i64 {
    (x * 4294967296.0).round() as i64
}

/// Convert fixed-point units back into a floating-point value.
fn value(u: i64) -> f64 {
    (u as f64) / 4294967296.0
}

/// Whether two unit counts agree within `tol` units.
fn close(a: i64, b: i64, tol: i64) -> bool {
    (a - b).abs() <= tol
}

/// Roughly a hundredth of a thousandth in value: generous room for the
/// rounding of the CORDIC conversions.
const TRIG_TOL: i64 = 1 << 16;

#[test]
fn test_algebraic1() {
    let z1 = Algebraic::new(units(2.0), units(1.0));
    let z4 = Algebraic::new(units(3.0), units(4.0));
    let z2 = Algebraic::new(units(f64::sqrt(2.0) / -2.0), units(f64::sqrt(2.0) / -2.0));
    let z3 = Algebraic::new(units(f64::sqrt(2.0) / 2.0), units(f64::sqrt(2.0) / 2.0));

    println!("test_algebraic1 - z1 = {}, |z1| = {}", z1.to_text(), value(z1.absolute()));
    println!("test_algebraic1 - z2 = {}, |z2| = {}", z2.to_text(), value(z2.absolute()));
    println!("test_algebraic1 - z3 = {}, |z3| = {}", z3.to_text(), value(z3.absolute()));
    println!("test_algebraic1 - z4 = {}, |z4| = {}", z4.to_text(), value(z4.absolute()));

    println!("test_algebraic1 - z1 = {:?}, z2 = {:?}", z1, z2);
    println!("test_algebraic1 - z1 == z2 ? {}", z1 == z2);
    println!("test_algebraic1 - z3 == z2 ? {}", z3 == z2);

    println!("test_algebraic1 - (-z1) = {}", z1.neg().to_text());
    println!("test_algebraic1 - z1 + z4 = {}", z1.add(&z4).to_text());
    println!("test_algebraic1 - z1 - z4 = {}", z1.sub(&z4).to_text());
    println!("test_algebraic1 - z1 * z4 = {}", z1.mul(&z4).to_text());
    println!("test_algebraic1 - z1 / z4 = {}", z1.div(&z4).to_text());

    println!(
        "test_algebraic1 - z4.conjugate() = {}, |z4.conjugate()| = {}",
        z4.conjugate().to_text(),
        value(z4.conjugate().absolute()),
    );
    println!("test_algebraic1 - z1 / z4.conjugate() = {}", z1.div(&z4.conjugate()).to_text());
    println!("test_algebraic1 - z2 * z3 = {}", z2.mul(&z3).to_text());
    println!(
        "test_algebraic1 - z1 / z4 + z2 * z3 = {}",
        z1.div(&z4).add(&z2.mul(&z3)).to_text(),
    );

    println!("test_algebraic1 - z1.argument() = {}", value(z1.argument()));
    println!("test_algebraic1 - z2.argument() = {}", value(z2.argument()));
    println!("test_algebraic1 - z3.argument() = {}", value(z3.argument()));
    println!("test_algebraic1 - z4.argument() = {}", value(z4.argument()));
    println!(
        "test_algebraic1 - (0 + 1i).argument() = {}",
        value(Algebraic::new(units(0.0), units(1.0)).argument()),
    );
    println!(
        "test_algebraic1 - (-2 + 0i).argument() = {}",
        value(Algebraic::new(units(-2.0), units(0.0)).argument()),
    );
    println!(
        "test_algebraic1 - (-2 - 2i).argument() = {}",
        value(Algebraic::new(units(-2.0), units(-2.0)).argument()),
    );
}

#[test]
fn round_trip_rectangular_polar_rectangular() {
    let samples = [
        (2.0, 1.0),
        (3.0, 4.0),
        (-2.0, -2.0),
        (-1.0, 0.5),
        (0.25, -8.0),
    ];
    for &(re, im) in samples.iter() {
        let z = Algebraic::new(units(re), units(im));
        let back = z.to_polar().to_algebraic();
        assert!(close(back.real, z.real, TRIG_TOL), "real: {} vs {}", back.real, z.real);
        assert!(
            close(back.imaginary, z.imaginary, TRIG_TOL),
            "imaginary: {} vs {}",
            back.imaginary,
            z.imaginary,
        );
        assert!(z.approx_eq(&back, TRIG_TOL));
    }
}

#[test]
fn round_trip_polar_rectangular_polar() {
    let samples = [(0.5, 2.0), (1.0, 1.0), (-1.2, 0.75), (0.0, 3.0)];
    for &(angle, mag) in samples.iter() {
        let p = Polar::new(units(angle), units(mag));
        let back = p.to_algebraic().to_polar();
        assert!(close(back.distance, p.distance, TRIG_TOL));
        // The angle comes back in (-pi, pi]; these samples already are.
        assert!(close(back.theta, p.theta, TRIG_TOL));
    }

    // An angle beyond the principal range comes back reduced modulo
    // a full turn.
    let p = Polar::new(units(5.0), units(2.0));
    let back = p.to_algebraic().to_polar();
    assert!(close(back.distance, p.distance, TRIG_TOL));
    assert!(close(back.theta, units(5.0 - 2.0 * std::f64::consts::PI), TRIG_TOL));
}

#[test]
fn cross_representation_multiplication_and_division() {
    let z1 = Algebraic::new(units(2.0), units(1.0));
    let z4 = Algebraic::new(units(3.0), units(4.0));

    let direct_mul = z1.mul(&z4);
    let via_polar_mul = z1.to_polar().mul(&z4.to_polar()).to_algebraic();
    assert!(direct_mul.approx_eq(&via_polar_mul, TRIG_TOL));

    let direct_div = z1.div(&z4);
    let via_polar_div = z1.to_polar().div(&z4.to_polar()).to_algebraic();
    assert!(direct_div.approx_eq(&via_polar_div, TRIG_TOL));
}

#[test]
fn conjugate_twice_is_identity_exactly() {
    let z = Algebraic::new(units(2.5), units(-1.25));
    let back = z.conjugate().conjugate();
    assert_eq!(back.real, z.real);
    assert_eq!(back.imaginary, z.imaginary);
}

#[test]
fn absolute_is_conjugation_invariant_exactly() {
    let samples = [(2.0, 1.0), (3.0, 4.0), (-2.0, -2.0), (0.0, 5.5)];
    for &(re, im) in samples.iter() {
        let z = Algebraic::new(units(re), units(im));
        assert_eq!(z.absolute(), z.conjugate().absolute());
    }
}

#[test]
fn arithmetic_scenario() {
    let z1 = Algebraic::new(2 * SCALE, SCALE);
    let z4 = Algebraic::new(3 * SCALE, 4 * SCALE);

    let sum = z1.add(&z4);
    assert_eq!(sum.real, 5 * SCALE);
    assert_eq!(sum.imaginary, 5 * SCALE);

    let diff = z1.sub(&z4);
    assert_eq!(diff.real, -SCALE);
    assert_eq!(diff.imaginary, -3 * SCALE);

    let prod = z1.mul(&z4);
    assert_eq!(prod.real, 2 * SCALE);
    assert_eq!(prod.imaginary, 11 * SCALE);

    // 0.4 - 0.2i, truncated toward zero in the last place.
    let quot = z1.div(&z4);
    assert_eq!(quot.real, 2 * SCALE / 5);
    assert_eq!(quot.imaginary, -(SCALE / 5));

    assert!(quot.approx_eq(&Algebraic::new(units(0.4), units(-0.2)), 4));
}

#[test]
fn argument_scenario() {
    let tol = TRIG_TOL;

    let up = Algebraic::new(0, SCALE);
    assert!(close(up.argument(), units(std::f64::consts::FRAC_PI_2), tol));

    let left = Algebraic::new(-2 * SCALE, 0);
    assert!(close(left.argument(), units(std::f64::consts::PI), tol));

    let lower_left = Algebraic::new(-2 * SCALE, -2 * SCALE);
    assert!(close(lower_left.argument(), units(-3.0 * std::f64::consts::FRAC_PI_4), tol));
}

#[test]
fn power_scenario() {
    let p = Polar::new(0, 2 * SCALE);
    let cubed = p.power(3);
    assert_eq!(cubed.distance, 8 * SCALE);
    assert_eq!(cubed.theta, 0);

    let z = cubed.to_algebraic();
    assert!(close(z.real, 8 * SCALE, 8 * TRIG_TOL));
    assert!(close(z.imaginary, 0, 8 * TRIG_TOL));
}

#[test]
fn power_unit_and_negative_exponents() {
    let p = Polar::new(units(0.5), 2 * SCALE);

    let zeroth = p.power(0);
    assert_eq!(zeroth.distance, SCALE);
    assert_eq!(zeroth.theta, 0);

    let first = p.power(1);
    assert_eq!(first.distance, 2 * SCALE);
    assert_eq!(first.theta, units(0.5));

    let inverse = p.power(-1);
    assert_eq!(inverse.distance, SCALE / 2);
    assert_eq!(inverse.theta, -units(0.5));
}

#[test]
fn zero_magnitude_is_zero_regardless_of_angle() {
    assert!(Polar::new(units(1.234), 0).is_zero());
    assert!(Polar::new(units(-27.5), 0).is_zero());
    assert!(Polar::new(0, 0).is_zero());
    assert!(!Polar::new(0, 1).is_zero());

    assert!(Algebraic::new(0, 0).is_zero());
    assert!(!Algebraic::new(1, 0).is_zero());
    assert!(!Algebraic::new(0, -1).is_zero());
}

#[test]
fn polar_reads_its_fields_directly() {
    let p = Polar::new(units(1.25), units(-3.5));
    assert_eq!(p.absolute(), units(-3.5));
    assert_eq!(p.argument(), units(1.25));

    let q = p.mul(&Polar::new(units(0.25), units(2.0)));
    assert_eq!(q.theta, units(1.5));
    assert_eq!(q.distance, units(-7.0));

    let r = q.div(&Polar::new(units(0.5), units(-2.0)));
    assert_eq!(r.theta, units(1.0));
    assert_eq!(r.distance, units(3.5));
}

#[test]
fn tolerance_equality() {
    let z = Algebraic::new(2 * SCALE, SCALE);
    let nudged = Algebraic::new(2 * SCALE + 17, SCALE - 200);
    let far = Algebraic::new(2 * SCALE + 100_000, SCALE);
    assert!(z == nudged);
    assert!(z != far);
    assert!(z.approx_eq(&far, 100_000));
    assert!(!z.approx_eq(&far, 99_999));
}

#[test]
fn rendering() {
    let p = Polar::new(0, 2 * SCALE);
    assert_eq!(p.trigonometric(), "2.000000000(cos(0.000000000) + isin(0.000000000)");
    assert_eq!(p.exponential(), "2.000000000e ^ (0.000000000i)");

    let q = Polar::new(-SCALE / 2, 6 * SCALE);
    assert_eq!(q.exponential(), "6.000000000e ^ (-0.500000000i)");

    let z = Algebraic::new(2 * SCALE, SCALE);
    assert_eq!(z.to_text(), "2.000000000 + 1.000000000i");
    let w = Algebraic::new(-2 * SCALE, -SCALE / 4);
    assert_eq!(w.to_text(), "-2.000000000 - 0.250000000i");
    let zero_im = Algebraic::new(SCALE, 0);
    assert_eq!(zero_im.to_text(), "1.000000000 + 0.000000000i");
}

#[test]
fn default_is_zero() {
    let z = Algebraic::default();
    assert!(z.is_zero());
    assert_eq!(z.absolute(), 0);
}
