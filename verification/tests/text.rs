use std::num::IntErrorKind;
use togglctl::text::{parse_decimal, text_equal, text_less, to_decimal, NumberError};

fn std_outcome(s: &str) -> Result<usize, NumberError> {
    match s.parse::<usize>() {
        Ok(n) => Ok(n),
        Err(e) => match e.kind() {
            IntErrorKind::Empty => Err(NumberError::Empty),
            IntErrorKind::InvalidDigit => Err(NumberError::InvalidDigit),
            IntErrorKind::PosOverflow => Err(NumberError::Overflow),
            other => panic!("unexpected kind {:?}", other),
        },
    }
}

#[test]
fn decimal_of_zero_is_one_digit() {
    assert_eq!(to_decimal(0), "0");
}

#[test]
fn decimal_of_small_numbers() {
    assert_eq!(to_decimal(7), "7");
    assert_eq!(to_decimal(10), "10");
    assert_eq!(to_decimal(12345), "12345");
    assert_eq!(to_decimal(1_000_000), "1000000");
}

#[test]
fn decimal_matches_std_formatting() {
    for n in [1usize, 9, 10, 11, 99, 100, 101, 65535, 4_000_000_000, usize::MAX - 1, usize::MAX] {
        assert_eq!(to_decimal(n), n.to_string());
    }
}

#[test]
fn parse_plain_number() {
    assert_eq!(parse_decimal("42"), Ok(42));
    assert_eq!(parse_decimal("0"), Ok(0));
    assert_eq!(parse_decimal("163453989"), Ok(163453989));
}

#[test]
fn parse_accepts_leading_plus_and_zeros() {
    assert_eq!(parse_decimal("+7"), Ok(7));
    assert_eq!(parse_decimal("007"), Ok(7));
    assert_eq!(parse_decimal("+000"), Ok(0));
}

#[test]
fn parse_empty_text() {
    assert_eq!(parse_decimal(""), Err(NumberError::Empty));
}

#[test]
fn parse_sign_alone() {
    assert_eq!(parse_decimal("+"), Err(NumberError::InvalidDigit));
    assert_eq!(parse_decimal("-"), Err(NumberError::InvalidDigit));
}

#[test]
fn parse_rejects_other_characters() {
    assert_eq!(parse_decimal("12a"), Err(NumberError::InvalidDigit));
    assert_eq!(parse_decimal("-5"), Err(NumberError::InvalidDigit));
    assert_eq!(parse_decimal(" 1"), Err(NumberError::InvalidDigit));
    assert_eq!(parse_decimal("1 "), Err(NumberError::InvalidDigit));
    assert_eq!(parse_decimal("1_000"), Err(NumberError::InvalidDigit));
    assert_eq!(parse_decimal("++1"), Err(NumberError::InvalidDigit));
    assert_eq!(parse_decimal("\u{ff11}"), Err(NumberError::InvalidDigit));
}

#[test]
fn parse_largest_number() {
    assert_eq!(parse_decimal(&usize::MAX.to_string()), Ok(usize::MAX));
}

#[test]
fn parse_overflow() {
    let above = format!("{}", usize::MAX as u128 + 1);
    assert_eq!(parse_decimal(&above), Err(NumberError::Overflow));
    assert_eq!(parse_decimal("99999999999999999999999999"), Err(NumberError::Overflow));
}

#[test]
fn parse_reports_the_first_failure() {
    assert_eq!(parse_decimal("99999999999999999999999999x"), Err(NumberError::Overflow));
    assert_eq!(parse_decimal("9x9999999999999999999999999"), Err(NumberError::InvalidDigit));
}

#[test]
fn parse_agrees_with_std() {
    let max = usize::MAX.to_string();
    let above = format!("{}", usize::MAX as u128 + 1);
    let padded = format!("000000000000000000000000{}", max);
    let long_bad = format!("{}0x", max);
    let inputs = vec![
        "", "+", "-", "0", "+0", "-0", "1", "+1", "-1", "12", "0012", "12 ", " 12", "1.5", "1e3",
        "0x10", "abc", "+-1", "++1", "9", "18446744073709551615", "18446744073709551616",
        "4294967295", "4294967296", "\u{662}", "1\u{e9}", max.as_str(), above.as_str(),
        padded.as_str(), long_bad.as_str(),
    ];
    for input in inputs {
        assert_eq!(parse_decimal(input), std_outcome(input), "input {:?}", input);
    }
}

#[test]
fn parse_inverts_decimal() {
    for n in [0usize, 1, 9, 10, 99, 100, 5000, usize::MAX] {
        assert_eq!(parse_decimal(&to_decimal(n)), Ok(n));
    }
}

#[test]
fn text_less_orders_like_a_dictionary() {
    assert!(text_less("a", "b"));
    assert!(!text_less("b", "a"));
    assert!(text_less("", "a"));
    assert!(!text_less("a", ""));
    assert!(!text_less("", ""));
    assert!(text_less("abc", "abd"));
    assert!(text_less("ab", "abc"));
    assert!(!text_less("abc", "ab"));
    assert!(!text_less("same", "same"));
    assert!(text_less("Zebra", "apple"));
}

#[test]
fn text_less_agrees_with_std() {
    let samples = ["", "a", "A", "ab", "abc", "b", "z", "\u{e9}", "e\u{301}", "\u{10348}", "\u{ffff}", "zz", "Work", "work"];
    for a in samples {
        for b in samples {
            assert_eq!(text_less(a, b), a < b, "{:?} < {:?}", a, b);
        }
    }
}

#[test]
fn text_equal_compares_characters() {
    assert!(text_equal("", ""));
    assert!(text_equal("alfred", "alfred"));
    assert!(!text_equal("alfred", "alfre"));
    assert!(!text_equal("alfre", "alfred"));
    assert!(!text_equal("alfred", "Alfred"));
    assert!(!text_equal("e\u{301}", "\u{e9}"));
}
