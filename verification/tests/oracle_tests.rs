use paid_notes::errors::OracleError;
use paid_notes::oracle::{find_subslice, parse_price, read_quote, settlement_floor, OracleRate};

#[test]
fn find_subslice_reports_first_occurrence() {
    assert_eq!(find_subslice(b"abcabc", b"abc"), Some(0));
    assert_eq!(find_subslice(b"xxabc", b"abc"), Some(2));
    assert_eq!(find_subslice(b"xyz", b"abc"), None);
    assert_eq!(find_subslice(b"ab", b"abc"), None);
    assert_eq!(find_subslice(b"aab", b"ab"), Some(1));
}

#[test]
fn parse_price_whole_number() {
    assert_eq!(parse_price(b"123"), Some(OracleRate { num: 123, den: 1 }));
    assert_eq!(parse_price(b"0"), Some(OracleRate { num: 0, den: 1 }));
}

#[test]
fn parse_price_decimal() {
    assert_eq!(parse_price(b"123.45"), Some(OracleRate { num: 12345, den: 100 }));
    assert_eq!(parse_price(b"0.99"), Some(OracleRate { num: 99, den: 100 }));
    assert_eq!(parse_price(b"4123.405"), Some(OracleRate { num: 4123405, den: 1000 }));
}

#[test]
fn parse_price_rejects_malformed_text() {
    assert_eq!(parse_price(b""), None);
    assert_eq!(parse_price(b"."), None);
    assert_eq!(parse_price(b"1."), None);
    assert_eq!(parse_price(b".5"), None);
    assert_eq!(parse_price(b"1.2.3"), None);
    assert_eq!(parse_price(b"12a"), None);
    assert_eq!(parse_price(b"-3"), None);
    assert_eq!(parse_price(b"1 2"), None);
}

#[test]
fn parse_price_rejects_numbers_beyond_width() {
    // One digit beyond what a 64-bit number can hold.
    assert_eq!(parse_price(b"184467440737095516160"), None);
    // The largest value still fits.
    assert_eq!(
        parse_price(b"18446744073709551615"),
        Some(OracleRate { num: u64::MAX, den: 1 })
    );
    // Too many fraction digits for the denominator.
    assert_eq!(parse_price(b"0.00000000000000000001"), None);
}

#[test]
fn read_quote_extracts_price_from_reply() {
    let body = br#"{"ask":"4123.51","price":"4123.45","size":"0.01"}"#;
    assert_eq!(read_quote(body), Ok(OracleRate { num: 412345, den: 100 }));
}

#[test]
fn read_quote_takes_first_price_field() {
    let body = br#"{"price":"7.5","price":"9.9"}"#;
    assert_eq!(read_quote(body), Ok(OracleRate { num: 75, den: 10 }));
}

#[test]
fn read_quote_without_price_is_unavailable() {
    assert_eq!(read_quote(b"{}"), Err(OracleError::Unavailable));
    assert_eq!(read_quote(b""), Err(OracleError::Unavailable));
    // Marker present, closing quote missing.
    assert_eq!(read_quote(br#"{"price":"12"#), Err(OracleError::Unavailable));
    // Marker present, malformed number.
    assert_eq!(read_quote(br#"{"price":"1.2.3"}"#), Err(OracleError::Unavailable));
}

#[test]
fn settlement_floor_is_ninety_nine_percent_truncated() {
    // 15_000 at 2/1: expected 30_000, floor 29_700.
    assert_eq!(settlement_floor(15_000, OracleRate { num: 2, den: 1 }), Ok(29_700));
    // 15_000 at 123.45: expected 1_851_750, floor 1_833_232 (truncated).
    assert_eq!(
        settlement_floor(15_000, OracleRate { num: 12345, den: 100 }),
        Ok(1_833_232)
    );
    // Truncation toward zero at both divisions.
    assert_eq!(settlement_floor(1, OracleRate { num: 1, den: 2 }), Ok(0));
}

#[test]
fn settlement_floor_zero_denominator_is_fatal() {
    assert_eq!(
        settlement_floor(15_000, OracleRate { num: 1, den: 0 }),
        Err(OracleError::PriceZero)
    );
}

#[test]
fn settlement_floor_overflow_is_reported() {
    assert_eq!(
        settlement_floor(u64::MAX, OracleRate { num: u64::MAX, den: 1 }),
        Err(OracleError::EstimateOverflow)
    );
}
