use star_trak::{
    Cartesian, Constellation, Identity, Fix, Geodetic, Scalar, Sgp4Data, State,
};

fn s(x: f64) -> Scalar {
    Scalar::from_bits(x.to_bits())
}

fn named(norad_id: u64, name: &str) -> Identity {
    Identity::new(norad_id, Some(name.to_string()), Some(format!("1998-{:03}A", norad_id % 1000)))
}

fn fix(seed: f64, time: i64) -> Fix {
    Fix {
        position_eci: Cartesian::from_state(State(s(seed), s(seed + 1.0), s(seed + 2.0))),
        velocity_eci: Cartesian::from_state(State(s(-seed), s(seed * 0.5), s(7.5))),
        position_geodetic: Geodetic::from_state(State(s(seed / 100.0), s(-seed / 50.0), s(400.0))),
        time,
    }
}

fn three_of_five() -> Constellation<&'static str> {
    Constellation::from_elements(vec![
        (named(25544, "ISS (ZARYA)"), Some("iss")),
        (named(11111, "BROKEN ONE"), None),
        (named(20580, "HST"), Some("hst")),
        (named(22222, "BROKEN TWO"), None),
        (named(43013, "NOAA 20"), Some("noaa")),
    ])
}

#[test]
fn identity_gives_a_default_for_a_missing_name() {
    let full = named(25544, "ISS (ZARYA)");
    assert_eq!(full.get_norad_id(), 25544);
    assert_eq!(full.get_name(), "ISS (ZARYA)");
    assert_eq!(full.get_international_designator(), "1998-544A");
    let bare = Identity::new(7, None, None);
    assert_eq!(bare.get_norad_id(), 7);
    assert_eq!(bare.get_name(), "NAME");
    assert_eq!(bare.get_international_designator(), "DESIGNATOR");
}

#[test]
fn sgp4_data_needs_constants() {
    let kept = Sgp4Data::from_elements(named(25544, "ISS (ZARYA)"), Some(17u32));
    let kept = kept.expect("constants were given");
    assert_eq!(kept.get_norad_id(), 25544);
    assert_eq!(kept.get_name(), "ISS (ZARYA)");
    assert_eq!(kept.get_object_id(), "1998-544A");
    assert_eq!(*kept.get_constants(), 17);
    assert!(Sgp4Data::<u32>::from_elements(named(25544, "ISS (ZARYA)"), None).is_none());
}

#[test]
fn sgp4_data_gives_unknown_for_a_missing_name() {
    let bare = Sgp4Data::from_elements(Identity::new(7, None, None), Some(())).unwrap();
    assert_eq!(bare.get_name(), "UNKNOWN");
    assert_eq!(bare.get_object_id(), "UNKNOWN");
}

#[test]
fn candidates_without_constants_never_occupy_a_slot() {
    let constellation = three_of_five();
    assert_eq!(constellation.len(), 3);
    assert_eq!(constellation.get_norad_ids(), vec![25544, 20580, 43013]);
    assert_eq!(*constellation.get_sgp4_data(0).get_constants(), "iss");
    assert_eq!(*constellation.get_sgp4_data(1).get_constants(), "hst");
    assert_eq!(*constellation.get_sgp4_data(2).get_constants(), "noaa");
    assert_eq!(constellation.get_sgp4_data(1).get_name(), "HST");
}

#[test]
fn a_new_constellation_is_zeroed() {
    let constellation = three_of_five();
    assert_eq!(constellation.get_timestamps(), &vec![0, 0, 0]);
    assert_eq!(constellation.get_positions_geodetic(), &vec![Geodetic::zero(); 3]);
    assert_eq!(constellation.get_positions_eci(), &vec![Cartesian::zero(); 3]);
    assert_eq!(constellation.get_velocities_eci(), &vec![Cartesian::zero(); 3]);
    for i in 0..3 {
        assert_eq!(constellation.get_fix(i), Fix::zero());
    }
}

#[test]
fn an_empty_batch_gives_an_empty_constellation() {
    let constellation: Constellation<u8> = Constellation::from_elements(Vec::new());
    assert_eq!(constellation.len(), 0);
    assert!(constellation.get_norad_ids().is_empty());
    assert!(constellation.get_timestamps().is_empty());
    let none: Constellation<u8> =
        Constellation::from_elements(vec![(named(1, "A"), None), (named(2, "B"), None)]);
    assert_eq!(none.len(), 0);
}

#[test]
fn propagate_overwrites_every_object_that_has_a_fix() {
    let mut constellation = three_of_five();
    let fixes = vec![Some(fix(100.0, 1000)), Some(fix(200.0, 1001)), Some(fix(300.0, 1002))];
    constellation.propagate(&fixes);
    for i in 0..3 {
        assert_eq!(Some(constellation.get_fix(i)), fixes[i]);
    }
    assert_eq!(constellation.get_timestamps(), &vec![1000, 1001, 1002]);
    assert_eq!(
        constellation.get_positions_eci()[1],
        Cartesian { x: s(200.0), y: s(201.0), z: s(202.0) }
    );
    assert_eq!(
        constellation.get_velocities_eci()[2],
        Cartesian { x: s(-300.0), y: s(150.0), z: s(7.5) }
    );
    assert_eq!(
        constellation.get_positions_geodetic()[0],
        Geodetic { lat_deg: s(1.0), lon_deg: s(-2.0), alt_km: s(400.0) }
    );
    assert_eq!(constellation.get_norad_ids(), vec![25544, 20580, 43013]);
}

#[test]
fn a_failed_propagation_keeps_the_state_of_the_tick_before() {
    let mut constellation = three_of_five();
    constellation
        .propagate(&vec![Some(fix(100.0, 1000)), Some(fix(200.0, 1000)), Some(fix(300.0, 1000))]);
    let before = constellation.get_fix(1);
    constellation.propagate(&vec![Some(fix(110.0, 1060)), None, Some(fix(310.0, 1060))]);
    assert_eq!(constellation.get_fix(0), fix(110.0, 1060));
    assert_eq!(constellation.get_fix(1), before);
    assert_eq!(constellation.get_fix(1), fix(200.0, 1000));
    assert_eq!(constellation.get_fix(2), fix(310.0, 1060));
    assert_eq!(constellation.get_timestamps(), &vec![1060, 1000, 1060]);
}

#[test]
fn a_failed_first_propagation_leaves_the_zero_state() {
    let mut constellation = three_of_five();
    constellation.propagate(&vec![None, Some(fix(200.0, 5)), None]);
    assert_eq!(constellation.get_fix(0), Fix::zero());
    assert_eq!(constellation.get_fix(1), fix(200.0, 5));
    assert_eq!(constellation.get_fix(2), Fix::zero());
}

#[test]
fn a_short_batch_leaves_the_objects_past_its_end() {
    let mut constellation = three_of_five();
    constellation
        .propagate(&vec![Some(fix(100.0, 1000)), Some(fix(200.0, 1000)), Some(fix(300.0, 1000))]);
    constellation.propagate(&vec![Some(fix(1.0, 2000))]);
    assert_eq!(constellation.get_fix(0), fix(1.0, 2000));
    assert_eq!(constellation.get_fix(1), fix(200.0, 1000));
    assert_eq!(constellation.get_fix(2), fix(300.0, 1000));
    constellation.propagate(&Vec::new());
    assert_eq!(constellation.get_fix(0), fix(1.0, 2000));
}

#[test]
fn a_long_batch_is_cut_at_the_last_handle() {
    let mut constellation = three_of_five();
    constellation.propagate(&vec![
        Some(fix(1.0, 1)),
        Some(fix(2.0, 2)),
        Some(fix(3.0, 3)),
        Some(fix(4.0, 4)),
        None,
    ]);
    assert_eq!(constellation.len(), 3);
    assert_eq!(constellation.get_timestamps(), &vec![1, 2, 3]);
}

#[test]
fn record_touches_one_slot() {
    let mut constellation = three_of_five();
    constellation.record(2, Some(fix(9.0, 77)));
    assert_eq!(constellation.get_fix(0), Fix::zero());
    assert_eq!(constellation.get_fix(1), Fix::zero());
    assert_eq!(constellation.get_fix(2), fix(9.0, 77));
    constellation.record(2, None);
    assert_eq!(constellation.get_fix(2), fix(9.0, 77));
}
