//! Timestamp parsing and display.

use ive::error::InvalidInput;
use ive::timestamp::{DisplayTimestamp, Timestamp, parse};

#[test]
fn parse_minutes_seconds_fraction() {
    // MM:SS with a fraction read as a left-justified five-digit field
    assert_eq!(parse(b"01:30").unwrap().micros, 90_000_000);
    assert_eq!(parse(b"2:05,5").unwrap().micros, 125_050_000);
    assert_eq!(parse(b"42").unwrap().micros, 42_000_000);
    // empty text counts as zero everywhere
    assert_eq!(parse(b"").unwrap().micros, 0);
    // pieces that are no number count as zero
    assert_eq!(parse(b"xx:10").unwrap().micros, 10_000_000);
}

#[test]
fn parse_rejects_malformed_fraction() {
    assert!(matches!(parse(b"1.2x"), Err(InvalidInput::StringParse)));
}

#[test]
fn display_pads_minutes_and_seconds() {
    let t = Timestamp { micros: 125_500_000 };
    assert_eq!(t.display_timestamp(), "02:05.500");
    let u = Timestamp { micros: 2_050_000 };
    assert_eq!(u.display_timestamp(), "00:02.50");
    let z = Timestamp { micros: 0 };
    assert_eq!(z.display_timestamp(), "00:00.0");
}

#[test]
fn parse_reads_fraction_as_five_digit_field() {
    // ",500" is left-justified to "50000": fifty thousand microseconds
    let t = parse(b"02:05,500").unwrap();
    assert_eq!(t.micros, 125_050_000);
    assert_eq!(t.display_timestamp(), "02:05.50");
    // five written digits carry microseconds exactly
    let u = parse(b"02:05,500000").unwrap();
    assert_eq!(u.micros, 125_500_000);
    assert_eq!(u.display_timestamp(), "02:05.500");
}
