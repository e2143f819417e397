use idlemmo::duration::{parse_duration, DurationParts};
use idlemmo::error::IntErrorKind;

#[test]
fn reads_days_hours_minutes() {
    assert_eq!(parse_duration("2d 5h 30m"), Ok(DurationParts { days: 2, hours: 5, minutes: 30 }));
    assert_eq!(parse_duration("  45m\t1h "), Ok(DurationParts { days: 0, hours: 1, minutes: 45 }));
    assert_eq!(parse_duration(""), Ok(DurationParts { days: 0, hours: 0, minutes: 0 }));
}

#[test]
fn later_units_replace_and_others_are_ignored() {
    assert_eq!(parse_duration("1h 3h about"), Ok(DurationParts { days: 0, hours: 3, minutes: 0 }));
}

#[test]
fn bad_numbers_fail() {
    assert_eq!(parse_duration("d"), Err(IntErrorKind::Empty));
    assert_eq!(parse_duration("1h xh"), Err(IntErrorKind::InvalidDigit));
    assert_eq!(parse_duration("5dd"), Err(IntErrorKind::InvalidDigit));
}
