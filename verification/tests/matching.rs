use pet_door::matcher::{classify, contains_bytes, parse_signal, Classification};
use pet_door::parser::{records, AdvertisementRecord};
use pet_door::proximity::{decide, Proximity};

const TARGET: &[u8] = b"4C000215:AAAAAAAAAAAAAAAAAAAAAAAAAAAAAAAA:11111111D8:060504030201";

fn record(identifier: &[u8], signal_field: &[u8]) -> AdvertisementRecord {
    AdvertisementRecord { identifier: identifier.to_vec(), signal_field: signal_field.to_vec() }
}

fn target_line_identifier() -> Vec<u8> {
    let mut id = b"OK+DISC:".to_vec();
    id.extend_from_slice(TARGET);
    id
}

#[test]
fn substring_containment() {
    assert!(contains_bytes(b"abcdef", b"cde"));
    assert!(contains_bytes(b"abcdef", b"abcdef"));
    assert!(contains_bytes(b"abcdef", b""));
    assert!(!contains_bytes(b"abcdef", b"cdx"));
    assert!(!contains_bytes(b"ab", b"abc"));
    assert!(contains_bytes(&target_line_identifier(), TARGET));
}

#[test]
fn signal_parses_signed_decimal_with_trim() {
    assert_eq!(parse_signal(b"-95"), Some(-95));
    assert_eq!(parse_signal(b" -50 "), Some(-50));
    assert_eq!(parse_signal(b"\t-7\r\n"), Some(-7));
    assert_eq!(parse_signal(b"+17"), Some(17));
    assert_eq!(parse_signal(b"0"), Some(0));
}

#[test]
fn malformed_signal_fields_fail_to_parse() {
    assert_eq!(parse_signal(b""), None);
    assert_eq!(parse_signal(b"   "), None);
    assert_eq!(parse_signal(b"-"), None);
    assert_eq!(parse_signal(b"+"), None);
    assert_eq!(parse_signal(b"xyz"), None);
    assert_eq!(parse_signal(b"12a"), None);
    assert_eq!(parse_signal(b"- 5"), None);
    assert_eq!(parse_signal(b"1 2"), None);
}

#[test]
fn signal_parse_respects_the_32_bit_range() {
    assert_eq!(parse_signal(b"2147483647"), Some(2147483647));
    assert_eq!(parse_signal(b"2147483648"), None);
    assert_eq!(parse_signal(b"-2147483648"), Some(-2147483648));
    assert_eq!(parse_signal(b"-2147483649"), None);
    assert_eq!(parse_signal(b"99999999999999999999"), None);
}

#[test]
fn matching_identifier_with_valid_signal_is_target() {
    let rec = record(&target_line_identifier(), b"-95");
    assert_eq!(classify(&rec, TARGET), Classification::Target(-95));
}

#[test]
fn at_door_below_threshold() {
    assert_eq!(decide(-95, -80), Proximity::AtDoor);
}

#[test]
fn nearby_only_at_or_above_threshold() {
    assert_eq!(decide(-50, -80), Proximity::NearbyOnly);
    assert_eq!(decide(-80, -80), Proximity::NearbyOnly);
}

#[test]
fn non_matching_identifier_is_not_target_whatever_the_signal() {
    assert_eq!(classify(&record(b"BBB", b"-50"), TARGET), Classification::NotTarget);
    assert_eq!(classify(&record(b"BBB", b"xyz"), TARGET), Classification::NotTarget);
    assert_eq!(classify(&record(b"BBB", b""), TARGET), Classification::NotTarget);
}

#[test]
fn matching_identifier_with_malformed_signal_fails_open() {
    let rec = record(&target_line_identifier(), b"xyz");
    assert_eq!(classify(&rec, TARGET), Classification::NotTarget);
    let rec = record(&target_line_identifier(), b"");
    assert_eq!(classify(&rec, TARGET), Classification::NotTarget);
}

#[test]
fn classify_parsed_records_end_to_end() {
    let mut text = target_line_identifier();
    text.extend_from_slice(b":-95\r\nBBB:-90\r\nOK+DISCE\r\n");
    let recs = records(&text);
    assert_eq!(recs.len(), 2);
    assert_eq!(classify(&recs[0], TARGET), Classification::Target(-95));
    assert_eq!(classify(&recs[1], TARGET), Classification::NotTarget);
}
