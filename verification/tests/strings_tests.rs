use rustpad::strings::{ascii_lowercase_chars, decimal_string, parse_usize, split_once_chars, trim_chars};
use rustpad::timestamp::{log_stamp, time_date_stamp, LocalTime};
use rustpad::unicode::is_white_space;

fn chars(s: &str) -> Vec<char> {
    s.chars().collect()
}

#[test]
fn white_space_agrees_with_std() {
    for u in 0u32..0x3100 {
        if let Some(c) = char::from_u32(u) {
            assert_eq!(is_white_space(c), c.is_whitespace(), "U+{u:04X}");
        }
    }
}

#[test]
fn trim_agrees_with_std() {
    for s in ["", "  ", " a b ", "\t\nx\r\n", "\u{3000}y\u{a0}", "z"] {
        assert_eq!(trim_chars(&chars(s)), chars(s.trim()));
    }
}

#[test]
fn parse_usize_agrees_with_std() {
    for s in ["", "+", "0", "+7", "-1", "12a", "007", "18446744073709551615", "18446744073709551616", " 1"] {
        assert_eq!(parse_usize(&chars(s)), s.parse::<usize>().ok(), "{s:?}");
    }
}

#[test]
fn decimal_numerals() {
    assert_eq!(decimal_string(0), "0");
    assert_eq!(decimal_string(1234567890), "1234567890");
    assert_eq!(decimal_string(u128::MAX), u128::MAX.to_string());
}

#[test]
fn ascii_lowercase_and_split() {
    assert_eq!(ascii_lowercase_chars(&chars("AbÉ1")), chars("abÉ1"));
    let (k, v) = split_once_chars(&chars("a=b=c"), '=').unwrap();
    assert_eq!((k, v), (chars("a"), chars("b=c")));
    assert!(split_once_chars(&chars("abc"), '=').is_none());
}

#[test]
fn time_stamps() {
    let t = LocalTime::new(2024, 2, 29, 12, 0).unwrap();
    assert_eq!(time_date_stamp(&t), "12:00 PM 02/29/2024");
    assert_eq!(log_stamp(&t), "\n12:00 PM 02/29/2024\n");
    let t = LocalTime::new(987, 1, 1, 23, 59).unwrap();
    assert_eq!(time_date_stamp(&t), "11:59 PM 01/01/0987");
    let t = LocalTime::new(12345, 3, 4, 0, 5).unwrap();
    assert_eq!(time_date_stamp(&t), "12:05 AM 03/04/+12345");
    let t = LocalTime::new(-1, 12, 31, 13, 30).unwrap();
    assert_eq!(time_date_stamp(&t), "01:30 PM 12/31/-0001");
    let t = LocalTime::new(-20000, 1, 2, 9, 7).unwrap();
    assert_eq!(log_stamp(&t), "\n09:07 AM 01/02/-20000\n");
}

#[test]
fn invalid_local_times_are_refused() {
    assert!(LocalTime::new(2023, 2, 29, 0, 0).is_none());
    assert!(LocalTime::new(2024, 13, 1, 0, 0).is_none());
    assert!(LocalTime::new(2024, 4, 31, 0, 0).is_none());
    assert!(LocalTime::new(2024, 4, 30, 24, 0).is_none());
    assert!(LocalTime::new(1900, 2, 29, 0, 0).is_none());
    assert!(LocalTime::new(2000, 2, 29, 0, 0).is_some());
}
