use idlemmo::error::IntErrorKind;
use idlemmo::numbers::{number_from_text, parse_u64};

#[test]
fn reads_plain_numbers() {
    assert_eq!(parse_u64("42"), Ok(42));
    assert_eq!(parse_u64("+7"), Ok(7));
    assert_eq!(parse_u64("0"), Ok(0));
    assert_eq!(parse_u64("18446744073709551615"), Ok(u64::MAX));
}

#[test]
fn number_errors() {
    assert_eq!(parse_u64(""), Err(IntErrorKind::Empty));
    assert_eq!(parse_u64("+"), Err(IntErrorKind::InvalidDigit));
    assert_eq!(parse_u64("-1"), Err(IntErrorKind::InvalidDigit));
    assert_eq!(parse_u64("1a"), Err(IntErrorKind::InvalidDigit));
    assert_eq!(parse_u64("18446744073709551616"), Err(IntErrorKind::PosOverflow));
    assert_eq!(parse_u64("99999999999999999999x"), Err(IntErrorKind::PosOverflow));
}

#[test]
fn grouped_numbers() {
    assert_eq!(number_from_text("1,955"), Ok(1955));
    assert_eq!(number_from_text("12"), Ok(12));
    assert_eq!(number_from_text(",,"), Err(IntErrorKind::Empty));
    assert_eq!(number_from_text("+,"), Err(IntErrorKind::InvalidDigit));
    assert_eq!(number_from_text("1.5"), Err(IntErrorKind::InvalidDigit));
}
