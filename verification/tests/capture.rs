//! Tests of the bounded output capture.

use rentaneko::{
    append, append_chunk, first_char_boundary_at_or_after, shared_capture, snapshot,
    OutputCapture, MAX_CAPTURED_BYTES, TRUNCATION_MARKER,
};

#[test]
fn retains_only_the_latest_output() {
    let mut capture = OutputCapture::default();
    capture.append(&"discarded".repeat(MAX_CAPTURED_BYTES));
    capture.append("retained");

    let output = capture.as_str();
    assert!(output.starts_with(TRUNCATION_MARKER));
    assert!(output.ends_with("retained"));
    assert!(output.len() <= TRUNCATION_MARKER.len() + MAX_CAPTURED_BYTES);
}

#[test]
fn capture_keeps_everything_that_fits() {
    let mut capture = OutputCapture::new();
    capture.append("first line\n");
    capture.append("second line\n");
    assert_eq!(capture.as_str(), "first line\nsecond line\n");
}

#[test]
fn capture_at_exact_capacity_is_not_truncated() {
    let mut capture = OutputCapture::new();
    capture.append(&"x".repeat(MAX_CAPTURED_BYTES));
    let output = capture.as_str();
    assert!(!output.starts_with(TRUNCATION_MARKER));
    assert_eq!(output.len(), MAX_CAPTURED_BYTES);
}

#[test]
fn capture_one_byte_over_capacity_drops_the_oldest_byte() {
    let mut capture = OutputCapture::new();
    capture.append("a");
    capture.append(&"b".repeat(MAX_CAPTURED_BYTES));
    let output = capture.as_str();
    assert_eq!(output, format!("{}{}", TRUNCATION_MARKER, "b".repeat(MAX_CAPTURED_BYTES)));
}

#[test]
fn capture_trims_at_a_character_boundary() {
    // "é" is two bytes: one byte over capacity forces the whole first
    // character out, leaving one byte of headroom.
    let mut capture = OutputCapture::new();
    capture.append("é");
    capture.append(&"z".repeat(MAX_CAPTURED_BYTES - 1));
    let output = capture.as_str();
    let retained = &output[TRUNCATION_MARKER.len()..];
    assert!(output.starts_with(TRUNCATION_MARKER));
    assert_eq!(retained, "z".repeat(MAX_CAPTURED_BYTES - 1));
}

#[test]
fn capture_of_multibyte_flood_stays_bounded_and_valid() {
    let mut capture = OutputCapture::new();
    capture.append(&"日本".repeat(MAX_CAPTURED_BYTES));
    capture.append("end");
    let output = capture.as_str();
    assert!(output.starts_with(TRUNCATION_MARKER));
    assert!(output.ends_with("本end"));
    assert!(output.len() <= TRUNCATION_MARKER.len() + MAX_CAPTURED_BYTES);
    // The longest suffix that fits: 3 bytes of "end" leave room for
    // (16384 - 3) / 3 = 5460 three-byte characters.
    assert_eq!(output.len(), TRUNCATION_MARKER.len() + 3 + 5460 * 3);
}

#[test]
fn capture_stays_truncated_after_later_small_output() {
    let mut capture = OutputCapture::new();
    capture.append(&"y".repeat(MAX_CAPTURED_BYTES + 1));
    capture.append("tail");
    let output = capture.as_str();
    assert!(output.starts_with(TRUNCATION_MARKER));
    assert!(output.ends_with("yyytail"));
}

#[test]
fn lossy_append_decodes_valid_utf8() {
    let mut capture = OutputCapture::new();
    capture.append_lossy("café".as_bytes());
    assert_eq!(capture.as_str(), "café");
}

#[test]
fn lossy_append_replaces_invalid_utf8() {
    let mut capture = OutputCapture::new();
    capture.append_lossy(&[b'o', b'k', 0xff, b'!']);
    assert_eq!(capture.as_str(), "ok\u{FFFD}!");
}

#[test]
fn first_char_boundary_skips_continuation_bytes() {
    assert_eq!(first_char_boundary_at_or_after("aé", 0), 0);
    assert_eq!(first_char_boundary_at_or_after("aé", 1), 1);
    assert_eq!(first_char_boundary_at_or_after("aé", 2), 3);
    assert_eq!(first_char_boundary_at_or_after("aé", 3), 3);
    assert_eq!(first_char_boundary_at_or_after("日", 1), 3);
    assert_eq!(first_char_boundary_at_or_after("a\u{1F600}b", 2), 5);
    assert_eq!(first_char_boundary_at_or_after("a\u{1F600}b", 5), 5);
}

#[test]
fn shared_capture_records_chunks() {
    let capture = shared_capture();
    append_chunk(&capture, b"captured-stderr-marker");
    assert_eq!(snapshot(&capture), "captured-stderr-marker");
}

#[test]
fn shared_capture_bounds_unbounded_input() {
    let capture = shared_capture();
    let flood = "x".repeat(MAX_CAPTURED_BYTES * 2);
    append_chunk(&capture, flood.as_bytes());
    let recorded = snapshot(&capture);
    assert!(recorded.starts_with(TRUNCATION_MARKER));
    assert!(recorded.len() <= TRUNCATION_MARKER.len() + MAX_CAPTURED_BYTES);
}

#[test]
fn shared_capture_appends_text() {
    let capture = shared_capture();
    append(&capture, "one ");
    append(&capture, "two");
    assert_eq!(snapshot(&capture), "one two");
}
