use paid_notes::errors::{map_ledger_reply, LedgerError, LedgerReplyError};
use paid_notes::hexaddr::{eth_receiver_address, parse_eth_address, AddressError};
use paid_notes::note::{char_is_space, check_note_valid, is_blank, Note};
use paid_notes::textfmt::{format_deleted, u64_to_dec};
use paid_notes::required_payment;

#[test]
fn required_payment_is_cost_plus_fee() {
    assert_eq!(required_payment(), 15_000);
    assert_eq!(paid_notes::COST_PER_NOTE, 10_000);
    assert_eq!(paid_notes::FEE_PER_NOTE, 5_000);
    assert_eq!(paid_notes::LEDGER_TRANSFER_FEE, 10_000);
}

#[test]
fn numbers_render_in_decimal() {
    assert_eq!(u64_to_dec(0), "0");
    assert_eq!(u64_to_dec(7), "7");
    assert_eq!(u64_to_dec(42), "42");
    assert_eq!(u64_to_dec(10_000), "10000");
    assert_eq!(u64_to_dec(u64::MAX), "18446744073709551615");
}

#[test]
fn deletion_message_names_the_note() {
    assert_eq!(format_deleted(7), "Note 7 deleted.");
    assert_eq!(format_deleted(12345), "Note 12345 deleted.");
}

#[test]
fn blank_detection_matches_whitespace() {
    assert!(is_blank(""));
    assert!(is_blank("   "));
    assert!(is_blank(" \t\r\n"));
    assert!(is_blank("\u{a0}\u{2003}"));
    assert!(!is_blank(" a "));
    assert!(!is_blank("x"));
    assert!(char_is_space(' '));
    assert!(char_is_space('\u{3000}'));
    assert!(!char_is_space('_'));
}

#[test]
fn note_validity_requires_both_fields() {
    assert!(check_note_valid(&Note::new("t".to_string(), "c".to_string())));
    assert!(!check_note_valid(&Note::new("".to_string(), "c".to_string())));
    assert!(!check_note_valid(&Note::new("t".to_string(), " ".to_string())));
}

#[test]
fn ledger_reply_errors_map_onto_gateway_errors() {
    assert_eq!(
        map_ledger_reply(LedgerReplyError::InsufficientFunds),
        LedgerError::InsufficientFunds
    );
    assert_eq!(map_ledger_reply(LedgerReplyError::BadFee), LedgerError::BadFee);
    assert_eq!(
        map_ledger_reply(LedgerReplyError::TooOld),
        LedgerError::AllowanceExpired
    );
    assert_eq!(
        map_ledger_reply(LedgerReplyError::Duplicate),
        LedgerError::DuplicateSubmission
    );
    assert_eq!(
        map_ledger_reply(LedgerReplyError::Unavailable),
        LedgerError::LedgerUnreachable
    );
    assert_eq!(
        map_ledger_reply(LedgerReplyError::Generic),
        LedgerError::LedgerUnreachable
    );
}

#[test]
fn configured_receiver_address_decodes_to_twenty_bytes() {
    let bytes = parse_eth_address(eth_receiver_address()).expect("configured address is valid");
    assert_eq!(bytes.len(), 20);
    assert_eq!(bytes[0], 0x9f);
    assert_eq!(bytes[1], 0x8b);
    assert_eq!(bytes[19], 0xa5);
}

#[test]
fn address_parses_with_and_without_prefix() {
    let with = parse_eth_address("0x00000000000000000000000000000000000000ff").unwrap();
    let without = parse_eth_address("00000000000000000000000000000000000000ff").unwrap();
    assert_eq!(with, without);
    assert_eq!(with[19], 0xff);
    assert_eq!(with[0], 0x00);
}

#[test]
fn address_mixed_case_hex_decodes() {
    let v = parse_eth_address("0xAbCdEf0000000000000000000000000000000012").unwrap();
    assert_eq!(v[0], 0xab);
    assert_eq!(v[1], 0xcd);
    assert_eq!(v[2], 0xef);
    assert_eq!(v[19], 0x12);
}

#[test]
fn address_rejects_bad_hex() {
    assert_eq!(
        parse_eth_address("0xzz000000000000000000000000000000000000ff"),
        Err(AddressError::BadHex)
    );
    assert_eq!(parse_eth_address("0x123"), Err(AddressError::BadHex));
}

#[test]
fn address_rejects_wrong_length() {
    assert_eq!(parse_eth_address("0x12ab"), Err(AddressError::WrongLength));
    assert_eq!(
        parse_eth_address("0x9f8b9dE0b67BCe8d03B9A521F8dAF3dcc0E1f5A5ff"),
        Err(AddressError::WrongLength)
    );
}
