use parsin::text::parse_int;
use parsin::text::same_text;
use parsin::text::IntError;

#[test]
fn integers_with_signs() {
    assert_eq!(parse_int("0"), Ok(0));
    assert_eq!(parse_int("+5"), Ok(5));
    assert_eq!(parse_int("-0"), Ok(0));
    assert_eq!(parse_int("-42"), Ok(-42));
    assert_eq!(parse_int("007"), Ok(7));
    assert_eq!(parse_int("2147483647"), Ok(i32::MAX));
    assert_eq!(parse_int("-2147483648"), Ok(i32::MIN));
}

#[test]
fn integers_rejected() {
    assert_eq!(parse_int(""), Err(IntError::Empty));
    assert_eq!(parse_int("-"), Err(IntError::InvalidDigit));
    assert_eq!(parse_int("+"), Err(IntError::InvalidDigit));
    assert_eq!(parse_int("12a"), Err(IntError::InvalidDigit));
    assert_eq!(parse_int(" 1"), Err(IntError::InvalidDigit));
    assert_eq!(parse_int("+-1"), Err(IntError::InvalidDigit));
    assert_eq!(parse_int("١"), Err(IntError::InvalidDigit));
    assert_eq!(parse_int("2147483648"), Err(IntError::PosOverflow));
    assert_eq!(parse_int("-2147483649"), Err(IntError::NegOverflow));
    assert_eq!(parse_int("99999999999x"), Err(IntError::PosOverflow));
}

#[test]
fn integers_agree_with_std() {
    for s in ["", "-", "+", "1", "-1", "+1", "x", "1x", "2147483647", "2147483648", "-2147483648", "-2147483649", "00000000000000001", "3000000000a"] {
        let ours = parse_int(s);
        let theirs = s.parse::<i32>();
        match (ours, theirs) {
            (Ok(a), Ok(b)) => assert_eq!(a, b),
            (Err(a), Err(b)) => assert_eq!(a.message(), b.to_string()),
            (a, b) => panic!("{:?} differs from {:?} on {:?}", a, b, s),
        }
    }
}

#[test]
fn texts_compared_by_characters() {
    assert!(same_text("--", "--"));
    assert!(!same_text("--", "--help"));
    assert!(same_text("", ""));
    assert!(!same_text("ab", "ba"));
}
