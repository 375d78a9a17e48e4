use chrono::Datelike;
use star_trak::{day_number, epoch, Epoch};

#[test]
fn day_zero_is_the_first_of_january_2000() {
    assert_eq!(day_number(2000, 1, 1), 0);
    assert_eq!(day_number(2000, 1, 2), 1);
    assert_eq!(day_number(1999, 12, 31), -1);
    assert_eq!(day_number(2000, 2, 29), 59);
    assert_eq!(day_number(2000, 3, 1), 60);
    assert_eq!(day_number(2001, 1, 1), 366);
    assert_eq!(day_number(1970, 1, 1), -10957);
    assert_eq!(day_number(2020, 7, 12), 7498);
}

#[test]
fn day_number_follows_its_formula_where_the_year_is_negative() {
    // 367 * -1 - trunc(7 * (-1 + 0) / 4) + floor(275 / 9) + 1 - 730531
    assert_eq!(day_number(-1, 1, 1), -367 + 1 + 30 + 1 - 730531);
    // 367 * -5 - trunc(7 * (-5 + 1) / 4) + floor(275 * 12 / 9) + 31 - 730531
    assert_eq!(day_number(-5, 12, 31), -1835 + 7 + 366 + 31 - 730531);
    assert_eq!(day_number(0, 1, 1), 30 + 1 - 730531);
}

#[test]
fn day_number_takes_every_year_and_month_of_the_types() {
    let low = day_number(i32::MIN, u32::MAX, u32::MAX);
    let high = day_number(i32::MAX, u32::MAX, u32::MAX);
    assert!(low < high);
    assert_eq!(
        high,
        367 * (i32::MAX as i64)
            - (7 * (i32::MAX as i64 + (u32::MAX as i64 + 9) / 12)) / 4
            + 275 * (u32::MAX as i64) / 9
            + u32::MAX as i64
            - 730531
    );
}

#[test]
fn epoch_of_noon_of_day_zero_is_zero() {
    assert_eq!(epoch(946_728_000), Some(Epoch { days: 0, seconds: 0 }));
    assert_eq!(epoch(946_684_800), Some(Epoch { days: 0, seconds: -43200 }));
    assert_eq!(epoch(946_771_199), Some(Epoch { days: 0, seconds: 43199 }));
    assert_eq!(epoch(946_771_200), Some(Epoch { days: 1, seconds: -43200 }));
}

#[test]
fn epoch_of_the_start_of_1970() {
    assert_eq!(epoch(0), Some(Epoch { days: -10957, seconds: -43200 }));
    assert_eq!(epoch(-1), Some(Epoch { days: -10958, seconds: 43199 }));
    assert_eq!(epoch(1_594_588_259), Some(Epoch { days: 7498, seconds: 76259 - 43200 }));
}

#[test]
fn epoch_from_civil_is_relative_to_noon() {
    assert_eq!(Epoch::from_civil(2000, 1, 1, 43200), Epoch { days: 0, seconds: 0 });
    assert_eq!(Epoch::from_civil(2020, 7, 12, 0), Epoch { days: 7498, seconds: -43200 });
    assert_eq!(Epoch::from_civil(2020, 7, 12, 86399), Epoch { days: 7498, seconds: 43199 });
}

#[test]
fn epoch_is_none_past_the_calendar() {
    assert_eq!(epoch(i64::MAX), None);
    assert_eq!(epoch(i64::MIN), None);
}

#[test]
fn epoch_agrees_with_julian_years_since_j2000() {
    for secs in [0i64, 946_728_000, 1_594_588_259, 1_700_000_000, -86_401, 4_102_444_800] {
        let e = epoch(secs).expect("a date of the calendar");
        let years = e.days as f64 / 365.25 + e.seconds as f64 / (24.0 * 60.0 * 60.0 * 365.25);
        let datetime = chrono::DateTime::from_timestamp(secs, 0).unwrap().naive_utc();
        let expected = sgp4::julian_years_since_j2000(&datetime);
        assert!((years - expected).abs() <= 1e-12, "{} {} {}", secs, years, expected);
    }
}

#[test]
fn day_number_counts_the_days_of_the_calendar() {
    let day_zero = chrono::NaiveDate::from_ymd_opt(2000, 1, 1).unwrap();
    let dates = [
        (1901, 1, 1),
        (1904, 2, 29),
        (1957, 10, 4),
        (1969, 12, 31),
        (1999, 3, 1),
        (2000, 2, 28),
        (2000, 12, 31),
        (2020, 7, 12),
        (2024, 2, 29),
        (2024, 3, 1),
        (2096, 2, 29),
        (2099, 12, 31),
    ];
    for (year, month, day) in dates {
        let date = chrono::NaiveDate::from_ymd_opt(year, month, day).unwrap();
        assert_eq!(
            day_number(year, month, day),
            date.signed_duration_since(day_zero).num_days(),
            "{}",
            date
        );
    }
}

#[test]
fn day_number_leaves_the_calendar_after_february_2100() {
    let day_zero = chrono::NaiveDate::from_ymd_opt(2000, 1, 1).unwrap();
    let before = chrono::NaiveDate::from_ymd_opt(2100, 2, 28).unwrap();
    let after = chrono::NaiveDate::from_ymd_opt(2100, 3, 1).unwrap();
    assert_eq!(day_number(2100, 2, 28), before.signed_duration_since(day_zero).num_days());
    assert_eq!(day_number(2100, 3, 1), after.signed_duration_since(day_zero).num_days() + 1);
}

#[test]
fn the_named_seconds_are_those_of_the_calendar() {
    let at = |year, month, day, hour, minute, second| {
        chrono::NaiveDate::from_ymd_opt(year, month, day)
            .unwrap()
            .and_hms_opt(hour, minute, second)
            .unwrap()
            .and_utc()
            .timestamp()
    };
    assert_eq!(star_trak::epoch::FIRST_SECOND_OF_1901, at(1901, 1, 1, 0, 0, 0));
    assert_eq!(star_trak::epoch::FIRST_SECOND_OF_2100, at(2100, 1, 1, 0, 0, 0));
    assert_eq!(star_trak::epoch::FIRST_SECOND_OF_YEAR_1, at(1, 1, 1, 0, 0, 0));
    assert_eq!(star_trak::epoch::LAST_SECOND_OF_YEAR_9999, at(9999, 12, 31, 23, 59, 59));
}

#[test]
fn epoch_counts_the_days_from_1901_to_2099() {
    let first = star_trak::epoch::FIRST_SECOND_OF_1901;
    let last = star_trak::epoch::FIRST_SECOND_OF_2100 - 1;
    let mut secs = first;
    while secs <= last {
        for instant in [secs, (secs + 86_399).min(last)] {
            assert_eq!(
                epoch(instant),
                Some(Epoch {
                    days: instant.div_euclid(86_400) - 10_957,
                    seconds: instant.rem_euclid(86_400) - 43_200,
                }),
                "{}",
                instant
            );
        }
        secs += 86_400 * 97;
    }
    assert_eq!(epoch(first), Some(Epoch { days: -36_159, seconds: -43_200 }));
    assert_eq!(epoch(last), Some(Epoch { days: 36_524, seconds: 43_199 }));
}

#[test]
fn epoch_runs_a_day_ahead_after_february_2100() {
    let first_of_march = star_trak::epoch::FIRST_SECOND_OF_2100 + 59 * 86_400;
    assert_eq!(
        epoch(first_of_march - 1),
        Some(Epoch { days: (first_of_march - 1).div_euclid(86_400) - 10_957, seconds: 43_199 })
    );
    assert_eq!(
        epoch(first_of_march),
        Some(Epoch { days: first_of_march.div_euclid(86_400) - 10_957 + 1, seconds: -43_200 })
    );
}

#[test]
fn there_is_an_epoch_from_the_year_1_to_the_year_9999() {
    let first = star_trak::epoch::FIRST_SECOND_OF_YEAR_1;
    let last = star_trak::epoch::LAST_SECOND_OF_YEAR_9999;
    assert_eq!(epoch(first), Some(Epoch { days: day_number(1, 1, 1), seconds: -43_200 }));
    assert_eq!(epoch(last), Some(Epoch { days: day_number(9999, 12, 31), seconds: 43_199 }));
    let mut secs = first;
    while secs <= last {
        assert!(epoch(secs).is_some(), "{}", secs);
        secs += 86_400 * 36_525 + 4_321;
    }
}

#[test]
fn the_calendar_gives_every_instant_the_date_of_its_day() {
    // Day 730120 of the common era is 1 January 2000.
    for secs in [
        0i64,
        -1,
        86_400,
        star_trak::epoch::FIRST_SECOND_OF_YEAR_1 - 1,
        star_trak::epoch::FIRST_SECOND_OF_YEAR_1 - 366 * 86_400,
        -1_000_000_000_000,
        1_000_000_000_000,
        star_trak::epoch::LAST_SECOND_OF_YEAR_9999 + 1,
    ] {
        let date = chrono::DateTime::from_timestamp(secs, 0).expect("a date").date_naive();
        assert_eq!(
            date.num_days_from_ce() as i64 - 730_120,
            secs.div_euclid(86_400) - 10_957,
            "{}",
            secs
        );
        let e = epoch(secs).expect("an epoch");
        assert_eq!(e.days, day_number(date.year(), date.month(), date.day()));
        assert_eq!(e.seconds, secs.rem_euclid(86_400) - 43_200);
    }
}
