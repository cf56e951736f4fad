use leadforge::parse::{parse_u64, ParseTimeoutError};
use leadforge::parse_timeout;
use std::time::Duration;

#[test]
fn timeout_in_seconds() {
    assert_eq!(parse_timeout("10"), Ok(Duration::from_secs(10)));
    assert_eq!(parse_timeout("0"), Ok(Duration::from_secs(0)));
    assert_eq!(parse_timeout("+7"), Ok(Duration::from_secs(7)));
    let d = parse_timeout("86400").unwrap();
    assert_eq!(d.as_secs(), 86400);
    assert_eq!(d.subsec_nanos(), 0);
}

#[test]
fn timeout_empty_text() {
    assert_eq!(parse_timeout(""), Err(ParseTimeoutError::Empty));
}

#[test]
fn timeout_invalid_digits() {
    assert_eq!(parse_timeout("abc"), Err(ParseTimeoutError::InvalidDigit));
    assert_eq!(parse_timeout("+"), Err(ParseTimeoutError::InvalidDigit));
    assert_eq!(parse_timeout("-"), Err(ParseTimeoutError::InvalidDigit));
    assert_eq!(parse_timeout("-5"), Err(ParseTimeoutError::InvalidDigit));
    assert_eq!(parse_timeout(" 5"), Err(ParseTimeoutError::InvalidDigit));
    assert_eq!(parse_timeout("5s"), Err(ParseTimeoutError::InvalidDigit));
    assert_eq!(parse_timeout("1.5"), Err(ParseTimeoutError::InvalidDigit));
    assert_eq!(parse_timeout("٣"), Err(ParseTimeoutError::InvalidDigit));
}

#[test]
fn timeout_overflow() {
    assert_eq!(parse_u64("18446744073709551615"), Ok(u64::MAX));
    assert_eq!(parse_timeout("18446744073709551616"), Err(ParseTimeoutError::PosOverflow));
    // The first failure met from the left decides.
    assert_eq!(parse_timeout("99999999999999999999x"), Err(ParseTimeoutError::PosOverflow));
    assert_eq!(parse_timeout("1x99999999999999999999"), Err(ParseTimeoutError::InvalidDigit));
}

#[test]
fn parse_agrees_with_std() {
    let samples = [
        "", "+", "-", "0", "007", "+42", "-0", "12a", "a12", "18446744073709551615",
        "18446744073709551616", "184467440737095516150", "99999999999999999999x", "1x", "++1",
        "+-1", "１",
    ];
    for s in samples {
        let ours = parse_u64(s);
        let std_result = s.parse::<u64>();
        match (ours, std_result) {
            (Ok(a), Ok(b)) => assert_eq!(a, b, "{s}"),
            (Err(e), Err(f)) => assert_eq!(e.message(), f.to_string(), "{s}"),
            (a, b) => panic!("{s}: {a:?} vs {b:?}"),
        }
    }
}

#[test]
fn error_messages() {
    assert_eq!(ParseTimeoutError::Empty.message(), "cannot parse integer from empty string");
    assert_eq!(ParseTimeoutError::InvalidDigit.message(), "invalid digit found in string");
    assert_eq!(ParseTimeoutError::PosOverflow.message(), "number too large to fit in target type");
}

#[test]
fn decimal_text_reads_back() {
    let mut samples = vec![0u64, 1, 9, 10, 99, 100, 4_294_967_296, u64::MAX - 1, u64::MAX];
    let mut n: u64 = 1;
    while let Some(m) = n.checked_mul(7) {
        samples.push(m);
        n = m;
    }
    for n in samples {
        assert_eq!(parse_u64(&n.to_string()), Ok(n));
        let d = parse_timeout(&n.to_string()).unwrap();
        assert_eq!(d, Duration::from_secs(n));
        assert_eq!(d.subsec_nanos(), 0);
    }
}
