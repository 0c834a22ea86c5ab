//! Tests of readiness classification and the stdout scan.

use rentaneko::{
    classify_event, classify_line, error_message, is_loopback_endpoint, is_supported_readiness,
    listening_port, parse_listening_port, str_equals, ReadinessOutcome, ReadinessScan,
    DEFAULT_ERROR_MESSAGE,
};

const READY_LINE: &str = r#"{"version":1,"event":"listening","host":"127.0.0.1","port":50505}"#;

#[test]
fn parse_listening_port_classifies_valid_line() {
    assert_eq!(parse_listening_port(READY_LINE), Some(50505));
}

#[test]
fn parse_listening_port_classifies_non_json() {
    assert_eq!(parse_listening_port("Simulacat Core started"), None);
}

#[test]
fn parse_listening_port_classifies_error_event() {
    assert_eq!(
        parse_listening_port(r#"{"version":1,"event":"error","host":"127.0.0.1","port":50505}"#),
        None
    );
}

#[test]
fn parse_listening_port_classifies_missing_version() {
    assert_eq!(parse_listening_port(r#"{"event":"listening","host":"127.0.0.1","port":50505}"#), None);
}

#[test]
fn parse_listening_port_classifies_unsupported_version() {
    assert_eq!(
        parse_listening_port(r#"{"version":2,"event":"listening","host":"127.0.0.1","port":50505}"#),
        None
    );
}

#[test]
fn parse_listening_port_classifies_non_loopback() {
    assert_eq!(
        parse_listening_port(r#"{"version":1,"event":"listening","host":"0.0.0.0","port":50505}"#),
        None
    );
}

#[test]
fn parse_listening_port_classifies_zero_port() {
    assert_eq!(
        parse_listening_port(r#"{"version":1,"event":"listening","host":"127.0.0.1","port":0}"#),
        None
    );
}

#[test]
fn parse_listening_port_classifies_missing_port() {
    assert_eq!(parse_listening_port(r#"{"version":1,"event":"listening","host":"127.0.0.1"}"#), None);
}

#[test]
fn parse_listening_port_rejects_port_beyond_u16() {
    assert_eq!(
        parse_listening_port(r#"{"version":1,"event":"listening","host":"127.0.0.1","port":65536}"#),
        None
    );
    assert_eq!(
        parse_listening_port(r#"{"version":1,"event":"listening","host":"127.0.0.1","port":65535}"#),
        Some(65535)
    );
}

#[test]
fn parse_listening_port_accepts_additive_fields() {
    assert_eq!(
        parse_listening_port(
            r#"{"extra":true,"version":1,"event":"listening","host":"127.0.0.1","port":8080}"#
        ),
        Some(8080)
    );
}

#[test]
fn listening_port_validates_each_field() {
    assert_eq!(listening_port(1, "listening", "127.0.0.1", 50505), Some(50505));
    assert_eq!(listening_port(1, "listening", "localhost", 50505), None);
    assert_eq!(listening_port(1, "ready", "127.0.0.1", 50505), None);
    assert_eq!(listening_port(3, "listening", "127.0.0.1", 50505), None);
    assert_eq!(listening_port(1, "listening", "127.0.0.1", 70000), None);
}

#[test]
fn readiness_and_loopback_predicates() {
    assert!(is_supported_readiness(1, "listening"));
    assert!(!is_supported_readiness(0, "listening"));
    assert!(!is_supported_readiness(1, "Listening"));
    assert!(is_loopback_endpoint("127.0.0.1", 1));
    assert!(!is_loopback_endpoint("127.0.0.1", 0));
    assert!(!is_loopback_endpoint("127.0.0.2", 1));
}

#[test]
fn str_equals_compares_texts() {
    assert!(str_equals("", ""));
    assert!(str_equals("héllo", "héllo"));
    assert!(!str_equals("hello", "hellp"));
    assert!(!str_equals("hello", "hello!"));
}

#[test]
fn classify_line_reports_listening_port() {
    assert!(matches!(classify_line(READY_LINE), Some(ReadinessOutcome::Port(50505))));
}

#[test]
fn classify_line_ignores_noise() {
    assert!(classify_line("warming up").is_none());
    assert!(classify_line("[1,2,3]").is_none());
    assert!(classify_line(r#"{"version":1,"event":"progress"}"#).is_none());
    assert!(classify_line(r#"{"event":"error","message":"no version"}"#).is_none());
    assert!(classify_line(r#"{"version":"1","event":"error"}"#).is_none());
}

#[test]
fn classify_line_reports_error_event_message() {
    match classify_line(r#"{"version":1,"event":"error","message":"boom"}"#) {
        Some(ReadinessOutcome::ErrorEvent(message)) => assert_eq!(message, "boom"),
        other => panic!("unexpected outcome {other:?}"),
    }
}

#[test]
fn classify_line_defaults_error_event_message() {
    match classify_line(r#"{"version":1,"event":"error"}"#) {
        Some(ReadinessOutcome::ErrorEvent(message)) => {
            assert_eq!(message, "Simulacat Core reported an error");
        }
        other => panic!("unexpected outcome {other:?}"),
    }
}

#[test]
fn classify_line_reports_malformed_listening_event() {
    let line = r#"{"version":1,"event":"listening","host":"0.0.0.0","port":50505}"#;
    match classify_line(line) {
        Some(ReadinessOutcome::Malformed(text)) => assert_eq!(text, line),
        other => panic!("unexpected outcome {other:?}"),
    }
    let unsupported = r#"{"version":2,"event":"listening","host":"127.0.0.1","port":50505}"#;
    assert!(matches!(classify_line(unsupported), Some(ReadinessOutcome::Malformed(_))));
}

#[test]
fn classify_event_from_fields() {
    let outcome = classify_event(
        "line",
        Some(1),
        Some("listening".to_owned()),
        Some("127.0.0.1".to_owned()),
        Some(4000),
        None,
    );
    assert!(matches!(outcome, Some(ReadinessOutcome::Port(4000))));
    let outcome = classify_event("line", None, Some("listening".to_owned()), None, None, None);
    assert!(outcome.is_none());
    let outcome = classify_event("line", Some(7), Some("error".to_owned()), None, None, None);
    match outcome {
        Some(ReadinessOutcome::ErrorEvent(message)) => assert_eq!(message, DEFAULT_ERROR_MESSAGE),
        other => panic!("unexpected outcome {other:?}"),
    }
}

#[test]
fn error_message_prefers_the_event_message() {
    assert_eq!(error_message(Some("disk full".to_owned())), "disk full");
    assert_eq!(error_message(None), DEFAULT_ERROR_MESSAGE);
}

#[test]
fn scan_reports_exit_before_ready() {
    let mut scan = ReadinessScan::new();
    assert!(scan.observe_line("noise before readiness").is_none());
    assert!(scan.is_pending());
    assert!(matches!(scan.observe_eof(), Some(ReadinessOutcome::Eof)));
    assert!(!scan.is_pending());
    assert!(scan.observe_eof().is_none());
}

#[test]
fn scan_reports_error_event() {
    let mut scan = ReadinessScan::new();
    match scan.observe_line(r#"{"version":1,"event":"error","message":"boom"}"#) {
        Some(ReadinessOutcome::ErrorEvent(message)) => assert_eq!(message, "boom"),
        other => panic!("unexpected outcome {other:?}"),
    }
    assert!(scan.observe_eof().is_none());
}

#[test]
fn scan_ignores_noise_before_listening() {
    let mut scan = ReadinessScan::new();
    assert!(scan.observe_line("warming up").is_none());
    assert!(matches!(scan.observe_line(READY_LINE), Some(ReadinessOutcome::Port(50505))));
    assert!(scan.observe_eof().is_none());
}

#[test]
fn scan_reports_only_the_first_classified_event() {
    let mut scan = ReadinessScan::new();
    assert!(matches!(scan.observe_line(READY_LINE), Some(ReadinessOutcome::Port(50505))));
    assert!(scan
        .observe_line(r#"{"version":1,"event":"error","message":"late"}"#)
        .is_none());
    assert!(scan.observe_line(READY_LINE).is_none());
    assert!(scan.observe_eof().is_none());
}

#[test]
fn scan_output_keeps_the_lines_before_a_malformed_event() {
    let mut scan = ReadinessScan::new();
    assert!(scan.observe_line("warming up").is_none());
    let bad = r#"{"version":1,"event":"listening","host":"10.0.0.1","port":50505}"#;
    assert!(matches!(scan.observe_line(bad), Some(ReadinessOutcome::Malformed(_))));
    assert_eq!(scan.output(), format!("warming up\n{bad}\n"));
}
