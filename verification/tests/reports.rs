use skycalc::constraint::Constraints;
use skycalc::constraint::default_frac_observable_time;
use skycalc::constraint::default_max_altitude;
use skycalc::constraint::default_max_size;
use skycalc::constraint::default_max_targets;
use skycalc::constraint::default_min_altitude;
use skycalc::constraint::default_min_size;
use skycalc::constraint::default_moon_separation;
use skycalc::constraint::default_use_darkness;
use skycalc::constraints::Constraint;
use skycalc::environment::Environment;
use skycalc::environment::default_humidity;
use skycalc::environment::default_pressure;
use skycalc::environment::default_temperature;
use skycalc::observer::default_elevation;
use skycalc::observer::default_name;
use skycalc::observer::parse_hm;
use skycalc::reports::environment_section;
use skycalc::reports::header_section;
use skycalc::text::i64_to_string;
use skycalc::text::u64_to_string;

#[test]
fn decimal_text() {
    assert_eq!(u64_to_string(0), "0");
    assert_eq!(u64_to_string(1010), "1010");
    assert_eq!(i64_to_string(-45), "-45");
    assert_eq!(i64_to_string(9_223_372_036_854_775_807), "9223372036854775807");
    assert_eq!(i64_to_string(i64::MIN), "-9223372036854775808");
}

#[test]
fn environment_text_line() {
    let env = Environment::default();
    assert_eq!(
        env.to_text(),
        "temperature: 20 C, humidity: 50 %, pressure: 1010 mbar"
    );
    let env2 = env.new(990, -5, 80);
    assert_eq!(
        env2.to_text(),
        "temperature: -5 C, humidity: 80 %, pressure: 990 mbar"
    );
}

#[test]
fn header_and_environment_sections() {
    let header = header_section();
    assert_eq!(header.len(), 4);
    assert_eq!(header[1], "\nSkyCalc v.0.1.0");
    assert_eq!(header[0], header[2]);
    assert_eq!(header[3], "\n\n");

    let env = Environment::default();
    let section = environment_section(&env);
    assert_eq!(section.len(), 3);
    assert_eq!(section[0], "\n   - ");
    assert_eq!(
        section[1],
        "temperature: 20 C, humidity: 50 %, pressure: 1010 mbar"
    );
    assert_eq!(section[2], "\n\n");
}

#[test]
fn constraint_defaults_and_builders() {
    assert_eq!(default_min_altitude(), 20);
    assert_eq!(default_max_altitude(), 80);
    assert_eq!(default_min_size(), 10);
    assert_eq!(default_max_size(), 300);
    assert_eq!(default_moon_separation(), 45);
    assert_eq!(default_frac_observable_time(), 50);
    assert_eq!(default_max_targets(), 50);
    assert!(!default_use_darkness());
    assert_eq!(default_temperature(), 20);
    assert_eq!(default_humidity(), 50);
    assert_eq!(default_pressure(), 1010);
    assert_eq!(default_elevation(), 0);
    assert_eq!(default_name(), Some("My observatory".to_string()));

    let c = Constraints::default().new(30, 85, 5, 200, 40, 60, 25, true);
    assert_eq!(c.min_altitude, 30);
    assert_eq!(c.max_altitude, 85);
    assert_eq!(c.min_size, 5);
    assert_eq!(c.max_size, 200);
    assert_eq!(c.moon_separation, 40);
    assert_eq!(c.frac_observable_time, 60);
    assert_eq!(c.max_targets, 25);
    assert!(c.use_darkness);

    let k = Constraint::new().constraint(30, 85, 5, 200, 40, 60, 25, true);
    assert_eq!(k.altitude_constraint_min, 30);
    assert_eq!(k.altitude_constraint_max, 85);
    assert_eq!(k.size_constraint_min, 5);
    assert_eq!(k.size_constraint_max, 200);
    assert_eq!(k.moon_separation_min, 40);
    assert_eq!(k.fraction_of_time_observable_threshold, 60);
    assert_eq!(k.max_number_within_threshold, 25);
    assert!(k.use_darkness);
}

#[test]
fn timezone_parsing() {
    assert_eq!(parse_hm("05:30"), 330);
    assert_eq!(parse_hm("-05:30"), -330);
    assert_eq!(parse_hm("+05:30"), 0);
    assert_eq!(parse_hm("00:00"), 0);
    assert_eq!(parse_hm("23:59"), 1439);
    assert_eq!(parse_hm("-23:59"), -1439);
    assert_eq!(parse_hm("3.5"), 0);
    assert_eq!(parse_hm("junk"), 0);
    assert_eq!(parse_hm(""), 0);
    assert_eq!(parse_hm("-"), 0);
}
