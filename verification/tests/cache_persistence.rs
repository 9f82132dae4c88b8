use backlightd::cachefile::parse_cache_file;
use backlightd::cachefile::render_cache_file;
use backlightd::errors::BacklightError;
use backlightd::location::LastKnownLocation;

#[test]
fn cache_file_round_trips() {
    let records = [
        LastKnownLocation { latitude_microdeg: 48_856_600, longitude_microdeg: 2_352_200, timestamp: 1_700_000_000 },
        LastKnownLocation { latitude_microdeg: -33_900_000, longitude_microdeg: 151_200_000, timestamp: 1 },
        LastKnownLocation { latitude_microdeg: 0, longitude_microdeg: 0, timestamp: 0 },
        LastKnownLocation { latitude_microdeg: -999_999_999_999_999, longitude_microdeg: 999_999_999_999_999, timestamp: 999_999_999_999_999 },
    ];
    for rec in records {
        let bytes = render_cache_file(&rec);
        assert_eq!(parse_cache_file(&bytes), Ok(rec));
    }
}

#[test]
fn cache_file_renders_three_lines() {
    let rec = LastKnownLocation { latitude_microdeg: -12, longitude_microdeg: 34, timestamp: 56 };
    let bytes = render_cache_file(&rec);
    assert_eq!(bytes, b"-12\n34\n56\n".to_vec());
}

#[test]
fn handwritten_cache_file_parses() {
    assert_eq!(
        parse_cache_file(b"-123\n456\n789\n"),
        Ok(LastKnownLocation { latitude_microdeg: -123, longitude_microdeg: 456, timestamp: 789 })
    );
}

#[test]
fn malformed_cache_file_is_a_cache_error() {
    assert_eq!(parse_cache_file(b""), Err(BacklightError::Cache));
    assert_eq!(parse_cache_file(b"1\n2\n"), Err(BacklightError::Cache)); // a line short
    assert_eq!(parse_cache_file(b"1\n2\n3\n4\n"), Err(BacklightError::Cache)); // trailing junk
    assert_eq!(parse_cache_file(b"1\n2\n3"), Err(BacklightError::Cache)); // unterminated
    assert_eq!(parse_cache_file(b"a\n2\n3\n"), Err(BacklightError::Cache)); // not a number
    assert_eq!(parse_cache_file(b"-\n2\n3\n"), Err(BacklightError::Cache)); // a sign alone
    assert_eq!(parse_cache_file(b"1\n2\n-3\n"), Err(BacklightError::Cache)); // signed timestamp
    assert_eq!(parse_cache_file(b"1\n2\n3.5\n"), Err(BacklightError::Cache)); // no fractions
}
