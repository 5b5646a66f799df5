use lazylog::timestamp::{parse_timestamp, parse_timestamp_in_year, TimestampParser};

const SECOND: i128 = 1_000_000_000;

#[test]
fn test_iso8601_basic() {
    let line = "2025-09-12T10:28:19.304534+0200 pipewire[632]: pw.port:";
    let result = parse_timestamp(line);
    assert!(result.is_some());
}

#[test]
fn test_syslog_format() {
    let line = "Nov 04 13:04:44 speaker-6-123456 pipewire[632]: pw.port:";
    let result = parse_timestamp(line);
    assert!(result.is_some());
}

#[test]
fn test_no_timestamp() {
    let line = "This line has no timestamp";
    let result = parse_timestamp(line);
    assert!(result.is_none());
}

#[test]
fn test_ordering() {
    let line1 = "2025-09-12T10:28:19.304534+0200 First event";
    let line2 = "2025-09-12T12:13:59.131632+0200 Second event";

    let dt1 = parse_timestamp(line1).unwrap();
    let dt2 = parse_timestamp(line2).unwrap();

    assert!(dt1 < dt2);
}

#[test]
fn rfc3339_with_zone_is_utc_instant() {
    let t = parse_timestamp_in_year("at 2024-01-15T10:30:45Z done", 2000).unwrap();
    assert_eq!(t, 1_705_314_645 * SECOND);
    let shifted = parse_timestamp_in_year("2024-01-15T12:30:45+02:00", 2000).unwrap();
    assert_eq!(shifted, t);
}

#[test]
fn offset_without_colon_is_read() {
    let t = parse_timestamp_in_year("2025-09-12T10:28:19.304534+0200 pipewire", 2000).unwrap();
    assert_eq!(t, 1_757_665_699 * SECOND + 304_534_000);
}

#[test]
fn time_without_zone_is_utc() {
    let t = parse_timestamp_in_year("2024-01-15T10:30:45 x", 2000).unwrap();
    assert_eq!(t, 1_705_314_645 * SECOND);
    let u = parse_timestamp_in_year("[2024-01-15 10:30:45.5] y", 2000).unwrap();
    assert_eq!(u, 1_705_314_645 * SECOND + 500_000_000);
}

#[test]
fn syslog_time_takes_given_year() {
    let t = parse_timestamp_in_year("Nov 04 13:04:44 host daemon: started", 2024).unwrap();
    assert_eq!(t, 1_730_725_484 * SECOND);
    let u = parse_timestamp_in_year("Jan  5 00:00:00 host", 2024).unwrap();
    assert!(u < t);
}

#[test]
fn invalid_date_gives_none() {
    assert_eq!(parse_timestamp_in_year("2024-13-45T99:99:99", 2024), None);
    assert_eq!(parse_timestamp_in_year("Foo 04 13:04:44", 2024), None);
}

#[test]
fn parser_compiles_its_patterns() {
    let parser = TimestampParser::new().unwrap();
    assert_eq!(parser.parse_in_year("2024-01-15 10:30:45", 1999), Some(1_705_314_645 * SECOND));
}
