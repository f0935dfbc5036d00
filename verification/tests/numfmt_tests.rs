use queue_bot::numfmt::{parse_u64, u64_to_dec};

#[test]
fn dec_of_zero() {
    assert_eq!(u64_to_dec(0), "0");
}

#[test]
fn dec_of_small_numbers() {
    assert_eq!(u64_to_dec(7), "7");
    assert_eq!(u64_to_dec(30), "30");
    assert_eq!(u64_to_dec(300), "300");
    assert_eq!(u64_to_dec(2400), "2400");
}

#[test]
fn dec_of_large_numbers() {
    assert_eq!(u64_to_dec(1234567890), "1234567890");
    assert_eq!(u64_to_dec(u64::MAX), "18446744073709551615");
}

#[test]
fn parse_round_trips() {
    assert_eq!(parse_u64("0"), Some(0));
    assert_eq!(parse_u64("30"), Some(30));
    assert_eq!(parse_u64("300"), Some(300));
    assert_eq!(parse_u64("900"), Some(900));
    assert_eq!(parse_u64("18446744073709551615"), Some(u64::MAX));
}

#[test]
fn parse_rejects_non_numerals() {
    assert_eq!(parse_u64(""), None);
    assert_eq!(parse_u64("12a"), None);
    assert_eq!(parse_u64("-5"), None);
    assert_eq!(parse_u64("3.5"), None);
    assert_eq!(parse_u64(" 30"), None);
}

#[test]
fn parse_rejects_overflow() {
    assert_eq!(parse_u64("18446744073709551616"), None);
    assert_eq!(parse_u64("99999999999999999999"), None);
}
