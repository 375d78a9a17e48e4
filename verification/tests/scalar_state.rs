use star_trak::{flatten, Cartesian, Fix, Geodetic, Horizontal, Scalar, Sighting, State};

fn s(x: f64) -> Scalar {
    Scalar::from_bits(x.to_bits())
}

#[test]
fn positive_agrees_with_the_comparison_of_the_numbers() {
    let samples = [
        0.0,
        -0.0,
        1.0,
        -1.0,
        118.27,
        -118.27,
        1e-300,
        -1e-300,
        5e-324,
        -5e-324,
        f64::MIN_POSITIVE,
        f64::MAX,
        f64::MIN,
        f64::INFINITY,
        f64::NEG_INFINITY,
        f64::NAN,
        -f64::NAN,
        f64::EPSILON,
    ];
    for x in samples {
        assert_eq!(s(x).is_positive(), x > 0.0, "{:?}", x);
    }
}

#[test]
fn positive_is_decided_on_the_bit_pattern() {
    assert!(!Scalar(0).is_positive());
    assert!(Scalar(1).is_positive());
    assert!(Scalar(0x7FF0_0000_0000_0000).is_positive());
    assert!(!Scalar(0x7FF0_0000_0000_0001).is_positive());
    assert!(!Scalar(0x7FFF_FFFF_FFFF_FFFF).is_positive());
    assert!(!Scalar(0x8000_0000_0000_0000).is_positive());
    assert!(!Scalar(0x8000_0000_0000_0001).is_positive());
    assert!(!Scalar(u64::MAX).is_positive());
}

#[test]
fn zero_of_either_sign_is_zero_and_not_positive() {
    assert!(s(0.0).is_zero());
    assert!(s(-0.0).is_zero());
    assert!(!s(5e-324).is_zero());
    assert!(!s(f64::NAN).is_zero());
    assert_eq!(Scalar::zero(), s(0.0));
    assert_eq!(Scalar::zero().to_bits(), 0);
    assert!(!Scalar::zero().is_positive());
}

#[test]
fn scalar_keeps_the_bits_it_was_given() {
    for x in [28.608389, -80.604333, 1325.0, f64::NAN, -0.0] {
        assert_eq!(s(x).to_bits(), x.to_bits());
        assert_eq!(Scalar::from_bits(x.to_bits()), Scalar(x.to_bits()));
    }
}

#[test]
fn tagged_records_read_a_triple_in_order() {
    let triple = State(s(28.608389), s(-80.604333), s(1325.0));
    let geodetic = Geodetic::from_state(triple);
    assert_eq!(geodetic.lat_deg, s(28.608389));
    assert_eq!(geodetic.lon_deg, s(-80.604333));
    assert_eq!(geodetic.alt_km, s(1325.0));
    assert_eq!(geodetic.to_state(), triple);

    let horizontal = Horizontal::from_state(triple);
    assert_eq!(horizontal.azimuth_deg, s(28.608389));
    assert_eq!(horizontal.elevation_deg, s(-80.604333));
    assert_eq!(horizontal.range_km, s(1325.0));
    assert_eq!(horizontal.to_state(), triple);

    let cartesian = Cartesian::from_state(triple);
    assert_eq!(cartesian.x, s(28.608389));
    assert_eq!(cartesian.y, s(-80.604333));
    assert_eq!(cartesian.z, s(1325.0));
    assert_eq!(cartesian.to_state(), triple);
}

#[test]
fn zero_records_are_all_positive_zero() {
    assert_eq!(State::zero(), State(Scalar(0), Scalar(0), Scalar(0)));
    assert_eq!(Geodetic::zero().to_state(), State::zero());
    assert_eq!(Cartesian::zero().to_state(), State::zero());
    let fix = Fix::zero();
    assert_eq!(fix.position_eci, Cartesian::zero());
    assert_eq!(fix.velocity_eci, Cartesian::zero());
    assert_eq!(fix.position_geodetic, Geodetic::zero());
    assert_eq!(fix.time, 0);
}

#[test]
fn flatten_lays_out_three_numbers_per_triple() {
    let states = vec![
        State(s(1.0), s(2.0), s(3.0)),
        State(s(4.0), s(5.0), s(6.0)),
        State(s(-7.0), s(f64::NAN), s(0.0)),
    ];
    let flat = flatten(&states);
    let expected: Vec<Scalar> =
        [1.0, 2.0, 3.0, 4.0, 5.0, 6.0, -7.0, f64::NAN, 0.0].iter().map(|x| s(*x)).collect();
    assert_eq!(flat, expected);
    assert_eq!(flatten(&Vec::new()), Vec::<Scalar>::new());
}

#[test]
fn sighting_is_visible_exactly_above_the_horizon() {
    let with_up = |up: f64| Sighting {
        position_enu: Cartesian { x: s(4141.1), y: s(78.5), z: s(up) },
        velocity_enu: Cartesian::zero(),
        position_aer: Horizontal::from_state(State(s(88.913626), s(1.635970), s(4142.820054))),
    };
    assert!(with_up(118.27).is_visible());
    assert!(with_up(5e-324).is_visible());
    assert!(with_up(f64::INFINITY).is_visible());
    assert!(!with_up(0.0).is_visible());
    assert!(!with_up(-0.0).is_visible());
    assert!(!with_up(-118.27).is_visible());
    assert!(!with_up(f64::NAN).is_visible());
}
