use skycalc::datetime::Date;
use skycalc::datetime::ParsedStamp;
use skycalc::datetime::date_from_jdn;
use skycalc::datetime::datetime_from_jd_seconds;
use skycalc::datetime::day_seconds_from_hms;
use skycalc::datetime::format_hhmm;
use skycalc::datetime::format_hm;
use skycalc::datetime::format_yyyymmdd;
use skycalc::datetime::hms_from_day_seconds;
use skycalc::datetime::jd_seconds_from_datetime;
use skycalc::datetime::jdn_from_date;
use skycalc::datetime::parse_date;
use skycalc::datetime::parse_stamp;

#[test]
fn test_date() {
    let d = Date::new(2024, 8, 19);
    assert_eq!(
        d,
        Date {
            year: 2024,
            month: 8,
            day: 19
        }
    );
}

#[test]
fn jdn_reference_values() {
    // Julian Day Numbers of each date's noon, from the classical tables
    assert_eq!(jdn_from_date(2000, 1, 1), 2_451_545);
    assert_eq!(jdn_from_date(1987, 1, 27), 2_446_823);
    assert_eq!(jdn_from_date(1987, 6, 19), 2_446_966);
    assert_eq!(jdn_from_date(1957, 10, 4), 2_436_116);
    assert_eq!(jdn_from_date(1900, 1, 1), 2_415_021);
    assert_eq!(jdn_from_date(1600, 1, 1), 2_305_448);
    assert_eq!(jdn_from_date(1600, 12, 31), 2_305_813);
    assert_eq!(jdn_from_date(837, 4, 10), 2_026_872);
    assert_eq!(jdn_from_date(333, 1, 27), 1_842_713);
    assert_eq!(jdn_from_date(-1000, 7, 12), 1_356_001);
    assert_eq!(jdn_from_date(-1000, 2, 29), 1_355_867);
    assert_eq!(jdn_from_date(-1001, 8, 17), 1_355_671);
    assert_eq!(jdn_from_date(-4712, 1, 1), 0);
}

#[test]
fn julian_day_as_float_reference_values() {
    // the continuous Julian Day reassembled in floating point from the
    // exact integer parts
    let jd = |y: i64, mo: i64, d: i64, frac: f64| -> f64 {
        (jdn_from_date(y, mo, d) as f64) - 0.5 + frac
    };
    assert_eq!(jd(2000, 1, 1, 0.5), 2_451_545.0);
    assert!((jd(1957, 10, 4, 0.81) - 2_436_116.31).abs() < 1e-6);
    assert_eq!(jd(-4712, 1, 1, 0.5), 0.0);
}

#[test]
fn date_from_jdn_reference_values() {
    assert_eq!(date_from_jdn(0), (-4712, 1, 1));
    assert_eq!(date_from_jdn(1_356_001), (-1000, 7, 12));
    assert_eq!(date_from_jdn(2_415_021), (1900, 1, 1));
    // the Gregorian adoption gap: October 4th, 1582 is followed by the 15th
    assert_eq!(date_from_jdn(2_299_160), (1582, 10, 4));
    assert_eq!(date_from_jdn(2_299_161), (1582, 10, 15));
}

#[test]
fn round_trip_boundary_dates() {
    let dates = [
        (-4712, 1, 1),
        (-1000, 2, 29),
        (333, 1, 27),
        (1582, 10, 4),
        (1582, 10, 15),
        (1600, 2, 29),
        (1900, 2, 28),
        (1999, 12, 31),
        (2000, 2, 29),
        (2024, 8, 19),
        (9999, 12, 31),
    ];
    for (y, m, d) in dates {
        assert_eq!(date_from_jdn(jdn_from_date(y, m, d)), (y, m, d));
    }
}

#[test]
fn round_trip_full_instants() {
    let instants = [
        (2024, 9, 13, 0, 0, 0),
        (2024, 9, 13, 23, 59, 59),
        (1582, 10, 15, 12, 0, 0),
        (-4712, 1, 1, 12, 0, 0),
        (9999, 12, 31, 23, 59, 59),
    ];
    for (y, mo, d, h, mi, s) in instants {
        let t = jd_seconds_from_datetime(y, mo, d, h, mi, s);
        assert_eq!(datetime_from_jd_seconds(t), (y, mo, d, h, mi, s));
    }
}

#[test]
fn jd_seconds_epoch() {
    // noon of the epoch date is Julian Day zero
    assert_eq!(jd_seconds_from_datetime(-4712, 1, 1, 12, 0, 0), 0);
    assert_eq!(jd_seconds_from_datetime(-4712, 1, 1, 0, 0, 0), -43200);
}

#[test]
fn day_seconds_round_trip() {
    assert_eq!(hms_from_day_seconds(43200), (12, 0, 0));
    assert_eq!(hms_from_day_seconds(0), (0, 0, 0));
    assert_eq!(hms_from_day_seconds(86399), (23, 59, 59));
    assert_eq!(day_seconds_from_hms(13, 55, 45), 50145);
    assert_eq!(hms_from_day_seconds(50145), (13, 55, 45));
}

#[test]
fn format_hm_fields() {
    assert_eq!(format_hm(2024, 9, 13, 6, 5, 0), "13-09 06:05");
    assert_eq!(format_hm(2024, 12, 31, 23, 59, 59), "31-12 23:59");
}

#[test]
fn format_clock_and_date_fields() {
    assert_eq!(format_hhmm(6, 5), "06:05");
    assert_eq!(format_hhmm(23, 59), "23:59");
    assert_eq!(format_yyyymmdd(2024, 9, 13), "2024-09-13");
    assert_eq!(format_yyyymmdd(837, 4, 10), "0837-04-10");
    assert_eq!(format_yyyymmdd(33, 1, 2), "0033-01-02");
    assert_eq!(format_yyyymmdd(5, 1, 2), "0005-01-02");
    assert_eq!(format_yyyymmdd(-1000, 7, 12), "-1000-07-12");
}

#[test]
fn parse_date_formats() {
    assert_eq!(parse_date("2024-09-13"), Some((2024, 9, 13)));
    assert_eq!(parse_date("13/09/2024"), Some((2024, 9, 13)));
    assert_eq!(parse_date("13-09-2024"), Some((2024, 9, 13)));
    assert_eq!(parse_date("20240913"), Some((2024, 9, 13)));
    assert_eq!(parse_date("not a date"), None);
    assert_eq!(parse_date("2024-13-01"), None);
}

#[test]
fn parse_stamp_classification() {
    assert_eq!(
        parse_stamp("2024-09-13 12:30:45"),
        ParsedStamp::Full(2024, 9, 13, 12, 30, 45)
    );
    assert_eq!(
        parse_stamp("13/09/2024 07:15"),
        ParsedStamp::Full(2024, 9, 13, 7, 15, 0)
    );
    assert_eq!(parse_stamp("2024-09-13"), ParsedStamp::DateOnly(2024, 9, 13));
    assert_eq!(parse_stamp("12:30"), ParsedStamp::TimeOnly(12, 30, 0));
    assert_eq!(parse_stamp("12:30:45"), ParsedStamp::TimeOnly(12, 30, 45));
    assert_eq!(parse_stamp(""), ParsedStamp::Unrecognized);
    assert_eq!(parse_stamp("gibberish"), ParsedStamp::Unrecognized);
}
