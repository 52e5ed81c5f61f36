use heim::names::{file_name, sibling_name, EntryKind};
use heim::text::{parse_i32, without_last_char};
use heim::IntErrorKind;

fn std_kind(s: &str) -> Result<i32, IntErrorKind> {
    match s.parse::<i32>() {
        Ok(v) => Ok(v),
        Err(e) => Err(match e.kind() {
            std::num::IntErrorKind::Empty => IntErrorKind::Empty,
            std::num::IntErrorKind::InvalidDigit => IntErrorKind::InvalidDigit,
            std::num::IntErrorKind::PosOverflow => IntErrorKind::PosOverflow,
            std::num::IntErrorKind::NegOverflow => IntErrorKind::NegOverflow,
            other => panic!("unexpected kind {:?}", other),
        }),
    }
}

#[test]
fn parse_i32_plain_numbers() {
    assert_eq!(parse_i32("0"), Ok(0));
    assert_eq!(parse_i32("1234"), Ok(1234));
    assert_eq!(parse_i32("+7"), Ok(7));
    assert_eq!(parse_i32("-42"), Ok(-42));
    assert_eq!(parse_i32("007"), Ok(7));
    assert_eq!(parse_i32("2147483647"), Ok(i32::MAX));
    assert_eq!(parse_i32("-2147483648"), Ok(i32::MIN));
}

#[test]
fn parse_i32_errors() {
    assert_eq!(parse_i32(""), Err(IntErrorKind::Empty));
    assert_eq!(parse_i32("+"), Err(IntErrorKind::InvalidDigit));
    assert_eq!(parse_i32("-"), Err(IntErrorKind::InvalidDigit));
    assert_eq!(parse_i32("12a"), Err(IntErrorKind::InvalidDigit));
    assert_eq!(parse_i32("1200\n"), Err(IntErrorKind::InvalidDigit));
    assert_eq!(parse_i32("+-1"), Err(IntErrorKind::InvalidDigit));
    assert_eq!(parse_i32("2147483648"), Err(IntErrorKind::PosOverflow));
    assert_eq!(parse_i32("-2147483649"), Err(IntErrorKind::NegOverflow));
    assert_eq!(parse_i32("99999999999x"), Err(IntErrorKind::PosOverflow));
    assert_eq!(parse_i32("x99999999999"), Err(IntErrorKind::InvalidDigit));
    assert_eq!(parse_i32("٣"), Err(IntErrorKind::InvalidDigit));
}

#[test]
fn parse_i32_agrees_with_std() {
    let cases = [
        "", "+", "-", "0", "-0", "+0", "1", "-1", "12", "1a", "a1", " 1", "1 ", "++1", "--1",
        "2147483647", "2147483648", "-2147483648", "-2147483649", "21474836470",
        "-21474836480", "00000000000000000042", "-00000000000000000042", "4294967296",
        "1_000", "1.5", "é1", "1é", "9999999999é", "+2147483647", "+2147483648",
    ];
    for s in cases.iter() {
        assert_eq!(parse_i32(s), std_kind(s), "input {:?}", s);
    }
}

#[test]
fn without_last_char_drops_the_newline() {
    assert_eq!(without_last_char("nct6775\n".to_string()), "nct6775");
    assert_eq!(without_last_char("".to_string()), "");
    assert_eq!(without_last_char("x".to_string()), "");
    assert_eq!(without_last_char("CPU é".to_string()), "CPU ");
    let mut s = "fan\n".to_string();
    s.pop();
    assert_eq!(without_last_char("fan\n".to_string()), s);
}

#[test]
fn entry_kinds() {
    assert!(EntryKind::HwmonDir.matches(b"hwmon0"));
    assert!(EntryKind::HwmonDir.matches(b"hwmon"));
    assert!(!EntryKind::HwmonDir.matches(b"hwmo"));
    assert!(!EntryKind::HwmonDir.matches(b"xhwmon0"));
    assert!(EntryKind::FanInput.matches(b"fan1_input"));
    assert!(!EntryKind::FanInput.matches(b"fan1_label"));
    assert!(!EntryKind::FanInput.matches(b"temp1_input"));
    assert!(EntryKind::TempInput.matches(b"temp1_input"));
    assert!(!EntryKind::TempInput.matches(b"temp1_max"));
    assert!(EntryKind::ThermalZone.matches(b"thermal_zone3"));
    assert!(!EntryKind::ThermalZone.matches(b"cooling_device0"));
    assert!(EntryKind::TripPointType.matches(b"trip_point_0_type"));
    assert!(!EntryKind::TripPointType.matches(b"trip_point_0_temp"));
    assert!(!EntryKind::TripPointType.matches(b"type"));
}

#[test]
fn file_names() {
    assert_eq!(file_name(b"temp1_", b"label"), b"temp1_label".to_vec());
    assert_eq!(file_name(b"", b""), Vec::<u8>::new());
    assert_eq!(sibling_name(b"temp1_input", 5, b"crit"), b"temp1_crit".to_vec());
    assert_eq!(sibling_name(b"input", 5, b"max"), b"max".to_vec());
    assert_eq!(heim::fans::label_file(b"fan2_input"), b"fan2_label".to_vec());
    assert_eq!(heim::fans::input_file(b"fan2_input"), b"fan2_input".to_vec());
}
