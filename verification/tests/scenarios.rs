//! End-to-end scenarios: the verified event engine driven by a
//! floating-point altitude sampler of the kind the application shell
//! provides.

use skycalc::darkness::darkness_utc;
use skycalc::horizon::cross_horizon;
use skycalc::sun::SunRS;
use skycalc::sun::TwilightType;
use skycalc::sun::next_sunrise_utc;
use skycalc::sun::next_sunset_utc;
use skycalc::datetime::jdn_from_date;

fn constrain_360(angle: f64) -> f64 {
    ((angle % 360.0) + 360.0) % 360.0
}

fn sind(v: f64) -> f64 {
    v.to_radians().sin()
}

fn cosd(v: f64) -> f64 {
    v.to_radians().cos()
}

// low-precision solar position: mean longitude and anomaly corrected
// by the first two harmonics of the equation of center
fn sun_position_from_jd(jd: f64) -> (f64, f64) {
    let n = jd - 2_451_545.0;
    let mut l = (280.460 + 0.985_647_4 * n) % 360.0;
    let mut g = ((357.528 + 0.985_600_3 * n) % 360.0).to_radians();
    if l < 0.0 {
        l += 360.0
    };
    if g < 0.0 {
        g += 2.0 * std::f64::consts::PI
    };
    let lambda = (l + 1.915 * g.sin() + 0.020 * (2.0 * g).sin()).to_radians();
    let eps = (23.439 - 0.000_000_4 * n).to_radians();
    let mut ra = (eps.cos() * lambda.sin()).atan2(lambda.cos());
    let dec = (eps.sin() * lambda.sin()).asin();
    if ra < 0.0 {
        ra += 2.0 * std::f64::consts::PI
    };
    (ra.to_degrees(), dec.to_degrees())
}

// seven-term low-precision lunar position
fn moon_position_low_precision(t: f64) -> (f64, f64) {
    let l = 218.32 + 481_267.881 * t + 6.29 * sind(135.0 + 477_198.87 * t)
        - 1.27 * sind(259.3 - 413_335.36 * t)
        + 0.66 * sind(235.7 + 890_534.22 * t)
        + 0.21 * sind(269.9 + 954_397.74 * t)
        - 0.19 * sind(357.5 + 35_999.05 * t)
        - 0.11 * sind(186.5 + 966_404.03 * t);
    let b = 5.13 * sind(93.3 + 483_202.02 * t) + 0.28 * sind(228.2 + 960_400.89 * t)
        - 0.28 * sind(318.3 + 6_003.15 * t)
        - 0.17 * sind(217.6 - 407_332.21 * t);
    let ll = cosd(b) * cosd(l);
    let m = 0.917_5 * cosd(b) * sind(l) - 0.397_8 * sind(b);
    let n = 0.397_8 * cosd(b) * sind(l) + 0.917_5 * sind(b);
    let mut ra = m.atan2(ll);
    if ra < 0.0 {
        ra += 2.0 * std::f64::consts::PI;
    }
    let dec = n.asin();
    (ra.to_degrees(), dec.to_degrees())
}

fn gmst_degrees(jd: f64) -> f64 {
    let t = (jd - 2_451_545.0) / 36_525.0;
    constrain_360(
        280.460_618_37 + 360.985_647_366_29 * (jd - 2_451_545.0) + 0.000_387_933 * t * t
            - t * t * t / 38_710_000.0,
    )
}

fn altitude_degrees(lat: f64, lon: f64, ra: f64, dec: f64, jd: f64) -> f64 {
    let ha = constrain_360(gmst_degrees(jd) + lon - ra);
    let x = -cosd(ha) * cosd(dec) * sind(lat) + sind(dec) * cosd(lat);
    let y = -sind(ha) * cosd(dec);
    let z = cosd(ha) * cosd(dec) * cosd(lat) + sind(dec) * sind(lat);
    let r = (x * x + y * y).sqrt();
    z.atan2(r).to_degrees()
}

// samples one night (local noon to local noon) on a uniform grid:
// times in milliseconds from the night's start, altitudes in
// ten-thousandths of a degree
fn sun_grid(lat: f64, lon: f64, night_start_jd: f64, num_points: usize) -> Vec<(i64, i64)> {
    let step_ms = 86_400_000 / (num_points as i64);
    let mut grid = Vec::new();
    for i in 0..=num_points {
        let jd = night_start_jd + (i as f64) / (num_points as f64);
        let (ra, dec) = sun_position_from_jd(jd);
        let alt = altitude_degrees(lat, lon, ra, dec, jd);
        grid.push(((i as i64) * step_ms, (alt * 10_000.0).round() as i64));
    }
    grid
}

fn moon_grid(lat: f64, lon: f64, night_start_jd: f64, num_points: usize) -> Vec<(i64, i64)> {
    let step_ms = 86_400_000 / (num_points as i64);
    let mut grid = Vec::new();
    for i in 0..=num_points {
        let jd = night_start_jd + (i as f64) / (num_points as f64);
        let t = (jd - 2_451_545.0) / 36_525.0;
        let (ra, dec) = moon_position_low_precision(t);
        let alt = altitude_degrees(lat, lon, ra, dec, jd);
        grid.push(((i as i64) * step_ms, (alt * 10_000.0).round() as i64));
    }
    grid
}

fn night_start(jd: f64, tz: f64) -> f64 {
    (jd + 0.5).floor() + tz / 24.0
}

#[test]
fn equator_equinox_one_crossing_per_band_and_ordered_dawn() {
    // the equator on an equinox: every band is crossed exactly once
    // each way, and dawn advances through the bands in order
    let lat = 0.0;
    let lon = 0.0;
    let jd = jdn_from_date(2024, 3, 20) as f64;
    let start = night_start(jd, 0.0);
    let grid = sun_grid(lat, lon, start, 288);

    let bands = [
        TwilightType::AstronomicalTwilight,
        TwilightType::NauticalTwilight,
        TwilightType::CivilTwilight,
        TwilightType::RiseSet,
    ];
    let mut dawn_times = Vec::new();
    for band in bands {
        let h = band.angle_tmdeg();
        let rising = cross_horizon(&grid, h, true);
        let setting = cross_horizon(&grid, h, false);
        assert_eq!(rising.len(), 1, "one rising crossing per band");
        assert_eq!(setting.len(), 1, "one setting crossing per band");
        let t = next_sunrise_utc(&vec![grid.clone()], h).expect("crossing found");
        dawn_times.push(t);
    }
    // astronomical <= nautical <= civil <= sunrise
    assert!(dawn_times[0] <= dawn_times[1]);
    assert!(dawn_times[1] <= dawn_times[2]);
    assert!(dawn_times[2] <= dawn_times[3]);
}

#[test]
fn polar_circle_solstice_never_sets_and_no_darkness() {
    // 70 degrees north at the June solstice: midnight sun
    let lat = 70.0;
    let lon = 0.0;
    let jd = jdn_from_date(2024, 6, 20) as f64;
    let h = TwilightType::RiseSet.angle_tmdeg();

    // the Next-mode search walks two successive nights and finds no set
    let nights = vec![
        sun_grid(lat, lon, night_start(jd, 0.0), 288),
        sun_grid(lat, lon, night_start(jd + 1.0, 0.0), 288),
    ];
    assert!(matches!(next_sunset_utc(&nights, h), Err(SunRS::NeverSet)));

    // and no band yields any darkness window
    let start = night_start(jd, 0.0) + 3.0 / 24.0;
    let sun = sun_grid(lat, lon, start, 1440);
    let moon = moon_grid(lat, lon, start, 1440);
    for band in [
        TwilightType::RiseSet,
        TwilightType::CivilTwilight,
        TwilightType::NauticalTwilight,
        TwilightType::AstronomicalTwilight,
    ] {
        assert_eq!(darkness_utc(&sun, &moon, band.angle_tmdeg()), (0, 0));
    }
}
