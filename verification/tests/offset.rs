use time::duration::Duration;
use time::error::Parse;
use time::offset::{fmt_z, parse_z, ParsedItems, UtcOffset};

fn parse_bytes(s: &[u8]) -> (Result<(), Parse>, ParsedItems, usize) {
    let mut items = ParsedItems::new();
    let mut pos: usize = 0;
    let r = parse_z(&mut items, s, &mut pos);
    (r, items, pos)
}

#[test]
fn parse_z_positive_offset() {
    let (r, items, pos) = parse_bytes(b"+0530");
    assert_eq!(r, Ok(()));
    assert_eq!(pos, 5);
    assert_eq!(items.offset, UtcOffset::minutes(330));
}

#[test]
fn parse_z_negative_offset() {
    let (r, items, pos) = parse_bytes(b"-0930");
    assert_eq!(r, Ok(()));
    assert_eq!(pos, 5);
    assert_eq!(items.offset, UtcOffset::minutes(-570));
}

#[test]
fn parse_z_zero_offset() {
    let (r, items, pos) = parse_bytes(b"+0000");
    assert_eq!(r, Ok(()));
    assert_eq!(pos, 5);
    assert_eq!(items.offset, UtcOffset::minutes(0));
}

#[test]
fn parse_z_missing_sign() {
    let (r, items, pos) = parse_bytes(b"0530");
    assert_eq!(r, Err(Parse::InvalidOffset));
    assert_eq!(pos, 0);
    assert_eq!(items.offset, None);
}

#[test]
fn parse_z_empty_input() {
    let (r, items, pos) = parse_bytes(b"");
    assert_eq!(r, Err(Parse::InvalidOffset));
    assert_eq!(pos, 0);
    assert_eq!(items.offset, None);
}

#[test]
fn parse_z_non_digit_hours() {
    let (r, items, pos) = parse_bytes(b"+a530");
    assert_eq!(r, Err(Parse::InvalidOffset));
    // The sign was consumed before the failure; there is no rollback.
    assert_eq!(pos, 1);
    assert_eq!(items.offset, None);
}

#[test]
fn parse_z_non_digit_minutes() {
    let (r, items, pos) = parse_bytes(b"+05x0");
    assert_eq!(r, Err(Parse::InvalidOffset));
    // The sign and the hour digits were consumed before the failure.
    assert_eq!(pos, 3);
    assert_eq!(items.offset, None);
}

#[test]
fn parse_z_truncated_input() {
    let (r, items, pos) = parse_bytes(b"+05");
    assert_eq!(r, Err(Parse::InvalidOffset));
    assert_eq!(pos, 3);
    assert_eq!(items.offset, None);
}

#[test]
fn parse_z_out_of_range_offset() {
    let (r, items, pos) = parse_bytes(b"+9999");
    assert_eq!(r, Err(Parse::InvalidOffset));
    // All five characters were consumed; only the range check failed.
    assert_eq!(pos, 5);
    assert_eq!(items.offset, None);
}

#[test]
fn parse_z_leaves_earlier_offset_untouched_on_failure() {
    let mut items = ParsedItems::new();
    let mut pos: usize = 0;
    assert_eq!(parse_z(&mut items, b"+0100", &mut pos), Ok(()));
    let mut pos2: usize = 0;
    assert_eq!(parse_z(&mut items, b"bad", &mut pos2), Err(Parse::InvalidOffset));
    assert_eq!(items.offset, UtcOffset::minutes(60));
}

#[test]
fn fmt_z_writes_five_ascii_bytes() {
    assert_eq!(fmt_z(UtcOffset::minutes(330).unwrap()), b"+0530".to_vec());
    assert_eq!(fmt_z(UtcOffset::minutes(-570).unwrap()), b"-0930".to_vec());
    assert_eq!(fmt_z(UtcOffset::minutes(0).unwrap()), b"+0000".to_vec());
    assert_eq!(fmt_z(UtcOffset::minutes(-75).unwrap()), b"-0115".to_vec());
    assert_eq!(fmt_z(UtcOffset::minutes(1439).unwrap()), b"+2359".to_vec());
    assert_eq!(fmt_z(UtcOffset::minutes(-1439).unwrap()), b"-2359".to_vec());
}

#[test]
fn format_after_parse_round_trips() {
    let tokens: [&[u8]; 6] = [b"+0530", b"-0930", b"+0000", b"+2359", b"-2359", b"-0001"];
    for token in tokens {
        let (r, items, _) = parse_bytes(token);
        assert_eq!(r, Ok(()));
        assert_eq!(fmt_z(items.offset.unwrap()), token.to_vec());
    }
}

#[test]
fn negative_zero_token_canonicalizes() {
    // "-0000" parses to the zero offset, which formats with a positive sign.
    let (r, items, pos) = parse_bytes(b"-0000");
    assert_eq!(r, Ok(()));
    assert_eq!(pos, 5);
    assert_eq!(fmt_z(items.offset.unwrap()), b"+0000".to_vec());
}

#[test]
fn oversized_minute_field_canonicalizes() {
    // "+0075" parses to 75 minutes, which formats as one hour and fifteen
    // minutes.
    let (r, items, _) = parse_bytes(b"+0075");
    assert_eq!(r, Ok(()));
    assert_eq!(fmt_z(items.offset.unwrap()), b"+0115".to_vec());
}

#[test]
fn utc_offset_minutes_range() {
    assert!(UtcOffset::minutes(1439).is_some());
    assert!(UtcOffset::minutes(-1439).is_some());
    assert_eq!(UtcOffset::minutes(1440), None);
    assert_eq!(UtcOffset::minutes(-1440), None);
}

#[test]
fn utc_offset_as_duration() {
    assert_eq!(
        UtcOffset::minutes(330).unwrap().as_duration(),
        Duration::minutes(330)
    );
    assert_eq!(
        UtcOffset::minutes(-570).unwrap().as_duration(),
        Duration::minutes(-570)
    );
    assert!(UtcOffset::minutes(-1).unwrap().as_duration().is_negative());
}

#[test]
fn parse_z_consumes_from_cursor_position() {
    let mut items = ParsedItems::new();
    let mut pos: usize = 3;
    let r = parse_z(&mut items, b"ts:+0530rest", &mut pos);
    assert_eq!(r, Ok(()));
    assert_eq!(pos, 8);
    assert_eq!(items.offset, UtcOffset::minutes(330));
}
