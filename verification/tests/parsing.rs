use pet_door::parser::{is_complete, records};

#[test]
fn terminator_at_end_completes() {
    assert!(is_complete(b"AAA:-50\r\nBBB:-90\r\nOK+DISCE\r\n"));
    assert!(is_complete(b"OK+DISCE\r\n"));
}

#[test]
fn missing_or_misplaced_terminator_is_incomplete() {
    assert!(!is_complete(b""));
    assert!(!is_complete(b"AAA:-50\r\n"));
    assert!(!is_complete(b"OK+DISCE"));
    assert!(!is_complete(b"OK+DISCE\r\nAAA:-50\r\n"));
    assert!(!is_complete(b"DISCE\r\n"));
}

#[test]
fn complete_response_yields_its_records() {
    let text = b"AAA:-50\r\nBBB:-90\r\nOK+DISCE\r\n";
    assert!(is_complete(text));
    let recs = records(text);
    assert_eq!(recs.len(), 2);
    assert_eq!(recs[0].identifier, b"AAA".to_vec());
    assert_eq!(recs[0].signal_field, b"-50".to_vec());
    assert_eq!(recs[1].identifier, b"BBB".to_vec());
    assert_eq!(recs[1].signal_field, b"-90".to_vec());
}

#[test]
fn lines_without_delimiter_are_skipped_only() {
    let text = b"hello\r\nAAA:-50\r\n\r\njunk line\r\nBBB:-90\r\nOK+DISCE\r\n";
    let recs = records(text);
    assert_eq!(recs.len(), 2);
    assert_eq!(recs[0].identifier, b"AAA".to_vec());
    assert_eq!(recs[0].signal_field, b"-50".to_vec());
    assert_eq!(recs[1].identifier, b"BBB".to_vec());
    assert_eq!(recs[1].signal_field, b"-90".to_vec());
}

#[test]
fn record_splits_at_first_delimiter_occurrence() {
    let recs = records(b"ID:PART:-42:-99\r\n");
    assert_eq!(recs.len(), 1);
    assert_eq!(recs[0].identifier, b"ID:PART".to_vec());
    assert_eq!(recs[0].signal_field, b"-42:-99".to_vec());
}

#[test]
fn delimiter_at_line_start_gives_empty_identifier() {
    let recs = records(b":-42\r\n");
    assert_eq!(recs.len(), 1);
    assert_eq!(recs[0].identifier, b"".to_vec());
    assert_eq!(recs[0].signal_field, b"-42".to_vec());
}

#[test]
fn line_without_break_at_end_still_parses() {
    let recs = records(b"AAA:-50");
    assert_eq!(recs.len(), 1);
    assert_eq!(recs[0].identifier, b"AAA".to_vec());
    assert_eq!(recs[0].signal_field, b"-50".to_vec());
}

#[test]
fn bare_newlines_without_carriage_return_are_line_breaks_too() {
    let recs = records(b"AAA:-50\nBBB:-90\n");
    assert_eq!(recs.len(), 2);
    assert_eq!(recs[0].signal_field, b"-50".to_vec());
    assert_eq!(recs[1].signal_field, b"-90".to_vec());
}

#[test]
fn empty_text_has_no_records() {
    assert_eq!(records(b"").len(), 0);
    assert_eq!(records(b"OK+DISCE\r\n").len(), 0);
}
