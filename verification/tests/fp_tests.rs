use npcore::fp;

#[test]
fn lt_orders_ordinary_values() {
    assert!(fp::lt(1.0f64.to_bits(), 2.0f64.to_bits()));
    assert!(!fp::lt(2.0f64.to_bits(), 1.0f64.to_bits()));
    assert!(!fp::lt(1.0f64.to_bits(), 1.0f64.to_bits()));
    assert!(fp::lt((-2.0f64).to_bits(), (-1.0f64).to_bits()));
    assert!(fp::lt((-1.0f64).to_bits(), 1.0f64.to_bits()));
    assert!(fp::lt(0.0f64.to_bits(), f64::INFINITY.to_bits()));
    assert!(fp::lt(f64::NEG_INFINITY.to_bits(), f64::MIN.to_bits()));
    assert!(fp::lt(1.0e-310f64.to_bits(), 1.0e-300f64.to_bits()));
}

#[test]
fn nan_compares_false() {
    let nan = f64::NAN.to_bits();
    let one = 1.0f64.to_bits();
    assert!(!fp::lt(nan, one));
    assert!(!fp::lt(one, nan));
    assert!(!fp::le(nan, one));
    assert!(!fp::eq(nan, nan));
    assert!(fp::nan(nan));
    assert!(!fp::nan(one));
}

#[test]
fn zeros_are_equal() {
    let pz = 0.0f64.to_bits();
    let nz = (-0.0f64).to_bits();
    assert!(fp::eq(pz, nz));
    assert!(!fp::lt(nz, pz));
    assert!(fp::le(nz, pz));
    assert!(fp::lt(nz, f64::MIN_POSITIVE.to_bits()));
}

#[test]
fn comparisons_match_hardware() {
    let samples: Vec<f64> = vec![
        0.0,
        -0.0,
        1.0,
        -1.0,
        0.1,
        -0.1,
        1e-4,
        1e300,
        -1e300,
        5e-324,
        -5e-324,
        f64::INFINITY,
        f64::NEG_INFINITY,
        f64::NAN,
        f64::MAX,
        f64::MIN,
    ];
    for &a in &samples {
        for &b in &samples {
            assert_eq!(fp::lt(a.to_bits(), b.to_bits()), a < b, "lt {} {}", a, b);
            assert_eq!(fp::le(a.to_bits(), b.to_bits()), a <= b, "le {} {}", a, b);
            assert_eq!(fp::eq(a.to_bits(), b.to_bits()), a == b, "eq {} {}", a, b);
        }
    }
}

#[test]
fn halve_matches_hardware() {
    for &x in &[0.2f64, 0.1, 1.0, -0.4, 1e-300, f64::MAX] {
        assert_eq!(fp::halve(x.to_bits()), (x / 2.0).to_bits(), "halve {}", x);
    }
}

#[test]
fn double_matches_hardware() {
    for &x in &[0.1f64, -0.1, 1.0, 5e-324, -5e-324, 1e308, f64::MAX, 1e-310] {
        assert_eq!(fp::double(x.to_bits()), (x * 2.0).to_bits(), "double {}", x);
    }
    assert_eq!(fp::double(f64::INFINITY.to_bits()), f64::INFINITY.to_bits());
}

#[test]
fn neg_double_matches_hardware() {
    for &x in &[0.3f64, -0.7, 1e-320, 1e308, 0.0, f64::INFINITY] {
        assert_eq!(fp::neg_double(x.to_bits()), (-2.0 * x).to_bits(), "neg_double {}", x);
    }
}

#[test]
fn max_bits_picks_largest() {
    let v: Vec<u64> = vec![
        0.5f64.to_bits(),
        (-3.0f64).to_bits(),
        2.25f64.to_bits(),
        0.0f64.to_bits(),
    ];
    assert_eq!(fp::max_bits(&v), 2.25f64.to_bits());
    let single: Vec<u64> = vec![(-1.0f64).to_bits()];
    assert_eq!(fp::max_bits(&single), (-1.0f64).to_bits());
}
