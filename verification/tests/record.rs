use fruits_game::record::format_record;
use fruits_game::record::is_record;
use fruits_game::record::parse_record;

#[test]
fn test_it_writes_record() {
    let text = format_record(100);
    let result = parse_record(text.as_str());

    assert_eq!(result, 100);
}

#[test]
fn test_it_checks_record() {
    let stored = parse_record(format_record(100).as_str());

    assert!(!is_record(50, stored));
    assert!(is_record(150, stored));
}

#[test]
fn format_renders_plain_decimal() {
    assert_eq!(format_record(0), "0");
    assert_eq!(format_record(7), "7");
    assert_eq!(format_record(450), "450");
    assert_eq!(format_record(u32::MAX), "4294967295");
}

#[test]
fn parse_reads_back_what_format_wrote() {
    for value in [0u32, 1, 9, 10, 99, 100, 616, 4999, 123_456_789, u32::MAX] {
        assert_eq!(parse_record(format_record(value).as_str()), value);
    }
}

#[test]
fn parse_treats_unreadable_text_as_no_record() {
    assert_eq!(parse_record(""), 0);
    assert_eq!(parse_record("abc"), 0);
    assert_eq!(parse_record("12a"), 0);
    assert_eq!(parse_record("-5"), 0);
    assert_eq!(parse_record(" 42"), 0);
    assert_eq!(parse_record("4294967296"), 0);
    assert_eq!(parse_record("99999999999999999999"), 0);
}

#[test]
fn parse_accepts_leading_zeros() {
    assert_eq!(parse_record("007"), 7);
    assert_eq!(parse_record("000"), 0);
}

#[test]
fn record_strictly_improves() {
    assert!(!is_record(0, 0));
    assert!(!is_record(100, 100));
    assert!(is_record(101, 100));
    assert!(is_record(1, 0));
}
