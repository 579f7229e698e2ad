use skycalc::darkness::darkness_astronomical_or_nautical;
use skycalc::darkness::darkness_utc;

fn night() -> (Vec<(i64, i64)>, Vec<(i64, i64)>) {
    // sun dips below -18 deg between samples 2 and 5; the moon sets
    // below its visibility cutoff from sample 3 on
    let sun = vec![
        (100, -100_000),
        (200, -170_000),
        (300, -185_000),
        (400, -190_000),
        (500, -185_000),
        (600, -150_000),
    ];
    let moon = vec![
        (100, 50_000),
        (200, 20_000),
        (300, 5_000),
        (400, 1_000),
        (500, -3_000),
        (600, -10_000),
    ];
    (sun, moon)
}

#[test]
fn darkness_window_bounds() {
    let (sun, moon) = night();
    // dark requires sun at or below the band and moon at or below 1250
    assert_eq!(darkness_utc(&sun, &moon, -180_000), (400, 500));
    assert_eq!(darkness_utc(&sun, &moon, -120_000), (400, 600));
}

#[test]
fn darkness_degenerate_when_never_dark() {
    let (sun, moon) = night();
    // a band the sun never reaches
    assert_eq!(darkness_utc(&sun, &moon, -200_000), (0, 0));
    // a bright moon spoils the whole night
    let full_moon: Vec<(i64, i64)> = sun.iter().map(|&(t, _)| (t, 300_000)).collect();
    assert_eq!(darkness_utc(&sun, &full_moon, -120_000), (0, 0));
}

#[test]
fn darkness_idempotent() {
    // the calculator is pure: identical inputs give identical output
    let (sun, moon) = night();
    let first = darkness_utc(&sun, &moon, -180_000);
    let second = darkness_utc(&sun, &moon, -180_000);
    assert_eq!(first, second);
}

#[test]
fn astronomical_or_nautical_fallback() {
    assert_eq!(
        darkness_astronomical_or_nautical((400, 500), (300, 600)),
        ("astronomical", (400, 500))
    );
    assert_eq!(
        darkness_astronomical_or_nautical((0, 0), (300, 600)),
        ("nautical", (300, 600))
    );
    assert_eq!(
        darkness_astronomical_or_nautical((0, 0), (0, 0)),
        ("none", (0, 0))
    );
}
