use backlightd::errors::BacklightError;
use backlightd::location::LastKnownLocation;
use backlightd::location::Location;
use backlightd::location::LocationStep;
use backlightd::location::find_location;
use backlightd::location::find_location_from_config;
use backlightd::location::lookup_enabled;
use backlightd::location::needs_remote_lookup;

fn parse(s: &str) -> Result<Location, BacklightError> {
    find_location_from_config(s.as_bytes())
}

#[test]
fn config_parses_decimal_degrees() {
    assert_eq!(
        parse("48.8566,2.3522"),
        Ok(Location { latitude_microdeg: 48_856_600, longitude_microdeg: 2_352_200 })
    );
    assert_eq!(
        parse("-33.9,151.2"),
        Ok(Location { latitude_microdeg: -33_900_000, longitude_microdeg: 151_200_000 })
    );
    assert_eq!(
        parse(" 10 ,\t20 "),
        Ok(Location { latitude_microdeg: 10_000_000, longitude_microdeg: 20_000_000 })
    );
    assert_eq!(
        parse("+5.,.5"),
        Ok(Location { latitude_microdeg: 5_000_000, longitude_microdeg: 500_000 })
    );
    assert_eq!(
        parse("0,0"),
        Ok(Location { latitude_microdeg: 0, longitude_microdeg: 0 })
    );
}

#[test]
fn config_keeps_six_fractional_digits() {
    assert_eq!(
        parse("1.2345678,0"),
        Ok(Location { latitude_microdeg: 1_234_567, longitude_microdeg: 0 })
    );
}

#[test]
fn malformed_config_is_a_config_error() {
    assert_eq!(parse("48.8566"), Err(BacklightError::Config)); // no comma
    assert_eq!(parse("abc,1"), Err(BacklightError::Config));
    assert_eq!(parse("1,,2"), Err(BacklightError::Config));
    assert_eq!(parse("1.2.3,4"), Err(BacklightError::Config));
    assert_eq!(parse(".,5"), Err(BacklightError::Config)); // a dot alone
    assert_eq!(parse(",5"), Err(BacklightError::Config)); // empty latitude
    assert_eq!(parse("5,"), Err(BacklightError::Config)); // empty longitude
    assert_eq!(parse("1e3,2"), Err(BacklightError::Config)); // no exponents
    assert_eq!(parse("1000000000,0"), Err(BacklightError::Config)); // too large
}

#[test]
fn lookup_flag_defaults_to_enabled() {
    assert!(lookup_enabled(None));
    assert!(lookup_enabled(Some(b"1")));
    assert!(lookup_enabled(Some(b"y")));
    assert!(lookup_enabled(Some(b"yes")));
    assert!(!lookup_enabled(Some(b"no")));
    assert!(!lookup_enabled(Some(b"0")));
    assert!(!lookup_enabled(Some(b"YES")));
    assert!(!lookup_enabled(Some(b"")));
}

#[test]
fn cache_freshness_window_is_twelve_hours() {
    let cache = LastKnownLocation {
        latitude_microdeg: 1,
        longitude_microdeg: 2,
        timestamp: 100_000,
    };
    assert!(!needs_remote_lookup(&cache, 100_000));
    assert!(!needs_remote_lookup(&cache, 100_000 + 43_200)); // exactly 12 h: still fresh
    assert!(needs_remote_lookup(&cache, 100_000 + 43_201));
    let empty = LastKnownLocation::default();
    assert!(needs_remote_lookup(&empty, 0)); // never resolved: always look up
}

#[test]
fn explicit_config_wins_over_everything() {
    let fresh_cache = LastKnownLocation {
        latitude_microdeg: 11,
        longitude_microdeg: 22,
        timestamp: 1_000_000,
    };
    let step = find_location(Some(b"1.5,-2.5"), true, &fresh_cache, 1_000_100);
    assert_eq!(
        step,
        LocationStep::UseConfigured(Location {
            latitude_microdeg: 1_500_000,
            longitude_microdeg: -2_500_000,
        })
    );
    // and a malformed explicit value is surfaced, never skipped
    let step = find_location(Some(b"oops"), true, &fresh_cache, 1_000_100);
    assert_eq!(step, LocationStep::ConfigInvalid);
}

#[test]
fn fresh_cache_is_used_without_a_remote_call() {
    let cache = LastKnownLocation {
        latitude_microdeg: 11,
        longitude_microdeg: 22,
        timestamp: 1_000_000,
    };
    let step = find_location(None, true, &cache, 1_000_000 + 43_200);
    assert_eq!(
        step,
        LocationStep::UseCached(Location { latitude_microdeg: 11, longitude_microdeg: 22 })
    );
}

#[test]
fn stale_or_empty_cache_queries_remote() {
    let stale = LastKnownLocation {
        latitude_microdeg: 11,
        longitude_microdeg: 22,
        timestamp: 1_000_000,
    };
    assert_eq!(find_location(None, true, &stale, 1_000_000 + 43_201), LocationStep::QueryRemote);
    let empty = LastKnownLocation::default();
    assert_eq!(find_location(None, true, &empty, 5), LocationStep::QueryRemote);
}

#[test]
fn disabled_lookup_yields_no_location_without_network() {
    let stale = LastKnownLocation::default();
    assert_eq!(find_location(None, false, &stale, 999_999_999), LocationStep::NoLocation);
    let fresh = LastKnownLocation {
        latitude_microdeg: 1,
        longitude_microdeg: 2,
        timestamp: 999_999_000,
    };
    assert_eq!(find_location(None, false, &fresh, 999_999_001), LocationStep::NoLocation);
}

#[test]
fn remote_result_updates_the_cache() {
    let mut cache = LastKnownLocation::default();
    assert!(cache.should_load_cache_file());
    cache.absorb_remote(
        Location { latitude_microdeg: -7_000_000, longitude_microdeg: 8_500_000 },
        777,
    );
    assert_eq!(cache.latitude_microdeg, -7_000_000);
    assert_eq!(cache.longitude_microdeg, 8_500_000);
    assert_eq!(cache.timestamp, 777);
    assert!(!cache.should_load_cache_file());
}
