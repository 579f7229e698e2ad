use skycalc::horizon::cross_horizon;
use skycalc::horizon::first_event;
use skycalc::horizon::search_nights;
use skycalc::horizon::two_point_interpolation;
use skycalc::moon::MoonRS;
use skycalc::moon::moonrise_utc_grid;
use skycalc::moon::moonset_utc_grid;
use skycalc::sun::RiseSetType;
use skycalc::sun::SunRS;
use skycalc::sun::TwilightType;
use skycalc::sun::nearest_event_utc;
use skycalc::sun::next_sunrise_utc;
use skycalc::sun::next_sunset_utc;
use skycalc::sun::previous_sunset_utc;
use skycalc::sun::sunrise_utc_grid;
use skycalc::sun::sunset_utc_grid;

#[test]
fn cross_horizon_finds_rising_pair() {
    let grid: Vec<(i64, i64)> = vec![(0, -100), (10, -10), (20, 5), (30, 20)];
    let rising = cross_horizon(&grid, 0, true);
    assert_eq!(rising, vec![(10, -10, 20, 5)]);
    let setting = cross_horizon(&grid, 0, false);
    assert!(setting.is_empty());
}

#[test]
fn cross_horizon_multiple_crossings_kept_in_order() {
    let grid: Vec<(i64, i64)> = vec![(0, -5), (10, 5), (20, -5), (30, 5)];
    let rising = cross_horizon(&grid, 0, true);
    assert_eq!(rising, vec![(0, -5, 10, 5), (20, -5, 30, 5)]);
    let setting = cross_horizon(&grid, 0, false);
    assert_eq!(setting, vec![(10, 5, 20, -5)]);
}

#[test]
fn interpolation_exact_value() {
    // the line from (10, -10) to (20, 5) meets 0 at 16.66..; the
    // refinement rounds down to the time unit
    assert_eq!(two_point_interpolation(10, 20, -10, 5, 0), 17);
    // an exact hit at the right sample
    assert_eq!(two_point_interpolation(0, 100, -10, 0, 0), 100);
    // a setting crossing
    assert_eq!(two_point_interpolation(0, 100, 10, -10, 0), 50);
}

#[test]
fn first_event_picks_first_crossing() {
    let grid: Vec<(i64, i64)> = vec![(0, -5), (10, 5), (20, -5), (30, 5)];
    assert_eq!(first_event(&grid, 0, true), Some(5));
    let flat: Vec<(i64, i64)> = vec![(0, -5), (10, -5), (20, -5)];
    assert_eq!(first_event(&flat, 0, true), None);
}

#[test]
fn sunrise_and_sunset_classification() {
    let grid: Vec<(i64, i64)> = vec![(0, -100), (10, -10), (20, 5), (30, 20)];
    assert_eq!(sunrise_utc_grid(&grid, 0), Ok(17));
    assert!(matches!(sunset_utc_grid(&grid, 0), Err(SunRS::NeverSet)));
    let polar_day: Vec<(i64, i64)> = vec![(0, 50), (10, 60), (20, 55)];
    assert!(matches!(
        sunrise_utc_grid(&polar_day, 0),
        Err(SunRS::NeverRise)
    ));
}

#[test]
fn moonrise_and_moonset_threshold() {
    // the Moon's visibility cutoff sits at +0.125 deg = 1250 units
    let grid: Vec<(i64, i64)> = vec![(0, 0), (10, 1000), (20, 2000)];
    assert_eq!(moonrise_utc_grid(&grid), Ok(13));
    assert!(matches!(moonset_utc_grid(&grid), Err(MoonRS::NeverSet)));
}

#[test]
fn search_tries_successive_nights() {
    let quiet: Vec<(i64, i64)> = vec![(0, -5), (10, -5)];
    let active: Vec<(i64, i64)> = vec![(20, -5), (30, 5)];
    let nights = vec![quiet.clone(), active.clone()];
    assert_eq!(search_nights(&nights, 0, true), Some(25));
    assert_eq!(next_sunrise_utc(&nights, 0), Ok(25));
    assert!(matches!(
        next_sunset_utc(&vec![quiet.clone()], 0),
        Err(SunRS::NeverSet)
    ));
    assert!(matches!(
        previous_sunset_utc(&vec![quiet], 0),
        Err(SunRS::NeverSet)
    ));
}

#[test]
fn nearest_event_decisions() {
    // closer ahead
    assert_eq!(nearest_event_utc(Ok(110), Ok(50), 100), Ok(110));
    // closer behind
    assert_eq!(nearest_event_utc(Ok(200), Ok(90), 100), Ok(90));
    // a strict tie keeps the backward event
    assert_eq!(nearest_event_utc(Ok(110), Ok(90), 100), Ok(90));
    // one direction empty cedes to the other
    assert_eq!(nearest_event_utc(Err(SunRS::NeverRise), Ok(90), 100), Ok(90));
    assert_eq!(nearest_event_utc(Ok(110), Err(SunRS::NeverRise), 100), Ok(110));
    assert!(matches!(
        nearest_event_utc(Err(SunRS::NeverRise), Err(SunRS::NeverRise), 100),
        Err(SunRS::NeverRise)
    ));
}

#[test]
fn twilight_bands() {
    assert_eq!(TwilightType::RiseSet.angle_tmdeg(), -8333);
    assert_eq!(TwilightType::CivilTwilight.angle_tmdeg(), -60000);
    assert_eq!(TwilightType::NauticalTwilight.angle_tmdeg(), -120000);
    assert_eq!(TwilightType::AstronomicalTwilight.angle_tmdeg(), -180000);
    assert_eq!(TwilightType::RiseSet.description(), "Sunrise/Sunset");
    assert_eq!(TwilightType::CivilTwilight.description(), "Civil Twilight");
    assert_eq!(
        TwilightType::NauticalTwilight.description(),
        "Nautical Twilight"
    );
    assert_eq!(
        TwilightType::AstronomicalTwilight.description(),
        "Astronomical Twilight"
    );
}

#[test]
fn rise_set_type_names() {
    assert_eq!(RiseSetType::Nearest.to_string(), "Nearest");
    assert_eq!(RiseSetType::Next.to_string(), "Next");
    assert_eq!(RiseSetType::Previous.to_string(), "Previous");
}
