//! Classification of the runner's newline-delimited JSON events.
//!
//! The runner emits one JSON document per line on stdout. A line is a
//! classified event when it carries an integer `version` and a string
//! `event`: `listening` reports readiness and `error` reports a startup
//! failure. Every other line is noise, retained for diagnostics only. The
//! first classified event settles readiness; if the stream closes before
//! one, the runner exited before it was ready.

use crate::capture::{CaptureView, OutputCapture};
use vstd::prelude::*;
use vstd::string::*;
use vstd::utf8::*;

verus! {

broadcast use {vstd::utf8::group_utf8_lib, vstd::slice::group_slice_axioms};

/// The message of an `error` event that carries none of its own.
pub const DEFAULT_ERROR_MESSAGE: &'static str = "Simulacat Core reported an error";

/// The value of field `key` of the JSON object on `line`, read as an
/// unsigned 64-bit integer: what `serde_json` parses it to.
pub uninterp spec fn json_u64_at(line: Seq<char>, key: Seq<char>) -> Option<u64>;

/// The value of field `key` of the JSON object on `line`, read as a string:
/// what `serde_json` parses it to.
pub uninterp spec fn json_str_at(line: Seq<char>, key: Seq<char>) -> Option<Seq<char>>;

/// Trusted: parses `line` with `serde_json::from_str` into a
/// `serde_json::Value`, then reads field `key` with `Value::get` and
/// `Value::as_u64`. The result is a function of the two texts alone and is
/// named, not stated: it is `None` when the line is not JSON, not an
/// object, lacks the field, or holds no unsigned integer in it.
#[verifier::external_body]
fn json_u64_field(line: &str, key: &str) -> (field: Option<u64>)
    ensures
        field == json_u64_at(line@, key@),
{
    match serde_json::from_str::<serde_json::Value>(line) {
        Ok(value) => value.get(key).and_then(serde_json::Value::as_u64),
        Err(_) => None,
    }
}

/// Trusted: parses `line` with `serde_json::from_str` into a
/// `serde_json::Value`, then reads field `key` with `Value::get` and
/// `Value::as_str`. The result is a function of the two texts alone and is
/// named, not stated: it is `None` when the line is not JSON, not an
/// object, lacks the field, or holds no string in it.
#[verifier::external_body]
fn json_str_field(line: &str, key: &str) -> (field: Option<String>)
    ensures
        match field {
            Some(text) => json_str_at(line@, key@) == Some(text@),
            None => json_str_at(line@, key@) is None,
        },
{
    match serde_json::from_str::<serde_json::Value>(line) {
        Ok(value) => value.get(key).and_then(serde_json::Value::as_str).map(str::to_owned),
        Err(_) => None,
    }
}

/// The outcome of scanning the runner's stdout for readiness.
#[derive(Debug)]
pub enum ReadinessOutcome {
    /// A valid `listening` event reporting the selected loopback port.
    Port(u16),
    /// A structured `error` event carrying the runner's message.
    ErrorEvent(String),
    /// A readiness-shaped line that could not be parsed into a valid event.
    Malformed(String),
    /// The stdout stream closed before any readiness event was observed.
    Eof,
}

/// The abstract value of a [`ReadinessOutcome`].
pub enum Readiness {
    Port(u16),
    ErrorEvent(Seq<char>),
    Malformed(Seq<char>),
    Eof,
}

impl View for ReadinessOutcome {
    type V = Readiness;

    open spec fn view(&self) -> Readiness {
        match self {
            ReadinessOutcome::Port(port) => Readiness::Port(*port),
            ReadinessOutcome::ErrorEvent(message) => Readiness::ErrorEvent(message@),
            ReadinessOutcome::Malformed(line) => Readiness::Malformed(line@),
            ReadinessOutcome::Eof => Readiness::Eof,
        }
    }
}

/// The abstract value of an optional outcome.
pub open spec fn outcome_view(outcome: Option<ReadinessOutcome>) -> Option<Readiness> {
    match outcome {
        Some(outcome) => Some(outcome@),
        None => None,
    }
}

/// Whether `version` and `event` name the supported readiness event.
pub open spec fn spec_is_supported_readiness(version: u64, event: Seq<char>) -> bool {
    version == 1 && event == "listening"@
}

/// Whether `host` and `port` name a usable loopback listener.
pub open spec fn spec_is_loopback_endpoint(host: Seq<char>, port: u64) -> bool {
    host == "127.0.0.1"@ && port != 0
}

/// The port of a valid v1 `listening` event with the given fields.
pub open spec fn spec_listening_port(version: u64, event: Seq<char>, host: Seq<char>, port: u64) -> Option<
    u16,
> {
    if spec_is_supported_readiness(version, event) && spec_is_loopback_endpoint(host, port) && port
        <= u16::MAX {
        Some(port as u16)
    } else {
        None
    }
}

/// The port of a valid v1 `listening` event whose fields were read as
/// given, if every one of them was present.
pub open spec fn listening_port_of_fields(
    version: Option<u64>,
    event: Option<Seq<char>>,
    host: Option<Seq<char>>,
    port: Option<u64>,
) -> Option<u16> {
    match (version, event, host, port) {
        (Some(version), Some(event), Some(host), Some(port)) => spec_listening_port(
            version,
            event,
            host,
            port,
        ),
        _ => None,
    }
}

/// The port of a valid v1 `listening` event on `line`.
pub open spec fn spec_parse_listening_port(line: Seq<char>) -> Option<u16> {
    listening_port_of_fields(
        json_u64_at(line, "version"@),
        json_str_at(line, "event"@),
        json_str_at(line, "host"@),
        json_u64_at(line, "port"@),
    )
}

/// The classification of a line whose fields were read as given.
pub open spec fn classify_fields(
    line: Seq<char>,
    version: Option<u64>,
    event: Option<Seq<char>>,
    host: Option<Seq<char>>,
    port: Option<u64>,
    message: Option<Seq<char>>,
) -> Option<Readiness> {
    match (version, event) {
        (Some(_), Some(name)) => if name == "listening"@ {
            Some(
                match listening_port_of_fields(version, event, host, port) {
                    Some(port) => Readiness::Port(port),
                    None => Readiness::Malformed(line),
                },
            )
        } else if name == "error"@ {
            Some(
                Readiness::ErrorEvent(
                    match message {
                        Some(message) => message,
                        None => DEFAULT_ERROR_MESSAGE@,
                    },
                ),
            )
        } else {
            None
        },
        _ => None,
    }
}

/// The classification of `line`: `None` for noise.
pub open spec fn spec_classify_line(line: Seq<char>) -> Option<Readiness> {
    classify_fields(
        line,
        json_u64_at(line, "version"@),
        json_str_at(line, "event"@),
        json_str_at(line, "host"@),
        json_u64_at(line, "port"@),
        json_str_at(line, "message"@),
    )
}

/// Returns whether two texts are equal, comparing their UTF-8 encodings.
pub fn str_equals(left: &str, right: &str) -> (equal: bool)
    ensures
        equal == (left@ == right@),
{
    let left_bytes = left.as_bytes();
    let right_bytes = right.as_bytes();
    proof {
        encode_utf8_decode_utf8(left@);
        encode_utf8_decode_utf8(right@);
    }
    if left_bytes.len() != right_bytes.len() {
        return false;
    }
    let mut index: usize = 0;
    while index < left_bytes.len()
        invariant
            left_bytes@ == encode_utf8(left@),
            right_bytes@ == encode_utf8(right@),
            left_bytes@.len() == right_bytes@.len(),
            index <= left_bytes@.len(),
            forall|i: int| 0 <= i < index ==> left_bytes@[i] == right_bytes@[i],
        decreases left_bytes@.len() - index,
    {
        if left_bytes[index] != right_bytes[index] {
            return false;
        }
        index += 1;
    }
    assert(left_bytes@ =~= right_bytes@);
    true
}

/// Returns whether `version` and `event` name the supported readiness event.
pub fn is_supported_readiness(version: u64, event: &str) -> (supported: bool)
    ensures
        supported == spec_is_supported_readiness(version, event@),
{
    version == 1 && str_equals(event, "listening")
}

/// Returns whether `host` and `port` name a usable loopback listener. The
/// runner must emit this literal host so that the handle never targets a
/// non-loopback listener.
pub fn is_loopback_endpoint(host: &str, port: u64) -> (loopback: bool)
    ensures
        loopback == spec_is_loopback_endpoint(host@, port),
{
    str_equals(host, "127.0.0.1") && port != 0
}

/// Returns the port of a valid v1 `listening` event with the given fields.
pub fn listening_port(version: u64, event: &str, host: &str, port: u64) -> (listening: Option<u16>)
    ensures
        listening == spec_listening_port(version, event@, host@, port),
{
    if is_supported_readiness(version, event) && is_loopback_endpoint(host, port) {
        if port <= 65535 {
            Some(port as u16)
        } else {
            None
        }
    } else {
        None
    }
}

/// Returns the port of a valid v1 `listening` event on `line`, and `None`
/// for noise, unclassified events, or a `listening` event whose version,
/// host, or port fails validation.
pub fn parse_listening_port(line: &str) -> (listening: Option<u16>)
    ensures
        listening == spec_parse_listening_port(line@),
{
    let version = json_u64_field(line, "version");
    let event = json_str_field(line, "event");
    let host = json_str_field(line, "host");
    let port = json_u64_field(line, "port");
    listening_port_from_fields(version, event, host, port)
}

/// Returns the port of a valid v1 `listening` event whose fields were read
/// as given, if every one of them was present.
pub fn listening_port_from_fields(
    version: Option<u64>,
    event: Option<String>,
    host: Option<String>,
    port: Option<u64>,
) -> (listening: Option<u16>)
    ensures
        listening == listening_port_of_fields(
            version,
            text_view(event),
            text_view(host),
            port,
        ),
{
    match (version, event, host, port) {
        (Some(version), Some(event), Some(host), Some(port)) => listening_port(
            version,
            event.as_str(),
            host.as_str(),
            port,
        ),
        _ => None,
    }
}

/// The abstract value of an optional text.
pub open spec fn text_view(text: Option<String>) -> Option<Seq<char>> {
    match text {
        Some(text) => Some(text@),
        None => None,
    }
}

/// Returns the classification of a line whose fields were read as given:
/// `None` for noise, the port of a valid `listening` event, the offending
/// line for an invalid one, and the message of an `error` event.
pub fn classify_event(
    line: &str,
    version: Option<u64>,
    event: Option<String>,
    host: Option<String>,
    port: Option<u64>,
    message: Option<String>,
) -> (outcome: Option<ReadinessOutcome>)
    ensures
        outcome_view(outcome) == classify_fields(
            line@,
            version,
            text_view(event),
            text_view(host),
            port,
            text_view(message),
        ),
{
    if version.is_none() {
        return None;
    }
    let name = match &event {
        Some(name) => name.clone(),
        None => {
            return None;
        },
    };
    if str_equals(name.as_str(), "listening") {
        match listening_port_from_fields(version, event, host, port) {
            Some(port) => Some(ReadinessOutcome::Port(port)),
            None => Some(ReadinessOutcome::Malformed(line.to_owned())),
        }
    } else if str_equals(name.as_str(), "error") {
        Some(ReadinessOutcome::ErrorEvent(error_message(message)))
    } else {
        None
    }
}

/// Returns the message an `error` event carries, or the default message.
pub fn error_message(message: Option<String>) -> (text: String)
    ensures
        text@ == match text_view(message) {
            Some(message) => message,
            None => DEFAULT_ERROR_MESSAGE@,
        },
{
    match message {
        Some(message) => message,
        None => DEFAULT_ERROR_MESSAGE.to_owned(),
    }
}

/// Returns the classification of `line`: `None` for noise, otherwise the
/// readiness outcome it reports.
pub fn classify_line(line: &str) -> (outcome: Option<ReadinessOutcome>)
    ensures
        outcome_view(outcome) == spec_classify_line(line@),
{
    let version = json_u64_field(line, "version");
    let event = json_str_field(line, "event");
    let host = json_str_field(line, "host");
    let port = json_u64_field(line, "port");
    let message = json_str_field(line, "message");
    classify_event(line, version, event, host, port, message)
}

/// The abstract state of a readiness scan: whether readiness is still to be
/// reported, and the capture of everything read so far.
pub struct ScanView {
    pub pending: bool,
    pub capture: CaptureView,
}

/// One step of the scan on a line of stdout: the line is captured, and while
/// readiness is pending its classification is reported; the first
/// classified line settles readiness.
pub open spec fn scan_line(state: ScanView, line: Seq<char>) -> (ScanView, Option<Readiness>) {
    let capture = state.capture.appended(line).appended("\n"@);
    if state.pending {
        let outcome = spec_classify_line(line);
        (ScanView { pending: outcome is None, capture }, outcome)
    } else {
        (ScanView { pending: false, capture }, None)
    }
}

/// The step of the scan when stdout closes: a pending readiness is reported
/// as the end of the stream.
pub open spec fn scan_eof(state: ScanView) -> (ScanView, Option<Readiness>) {
    if state.pending {
        (ScanView { pending: false, capture: state.capture }, Some(Readiness::Eof))
    } else {
        (state, None)
    }
}

/// Everything a scan reports over `lines` and the end of the stream.
pub open spec fn reported(state: ScanView, lines: Seq<Seq<char>>) -> Seq<Readiness>
    decreases lines.len(),
{
    if lines.len() == 0 {
        match scan_eof(state).1 {
            Some(outcome) => seq![outcome],
            None => seq![],
        }
    } else {
        let (next, outcome) = scan_line(state, lines[0]);
        match outcome {
            Some(outcome) => seq![outcome] + reported(next, lines.drop_first()),
            None => reported(next, lines.drop_first()),
        }
    }
}

/// The outcome of the first classified line, or the end of the stream.
pub open spec fn first_classified(lines: Seq<Seq<char>>) -> Readiness
    decreases lines.len(),
{
    if lines.len() == 0 {
        Readiness::Eof
    } else {
        match spec_classify_line(lines[0]) {
            Some(outcome) => outcome,
            None => first_classified(lines.drop_first()),
        }
    }
}

/// The scan of the runner's stdout for readiness. Every line is captured;
/// the readiness outcome is reported once.
#[derive(Debug)]
pub struct ReadinessScan {
    readiness_pending: bool,
    capture: OutputCapture,
}

impl View for ReadinessScan {
    type V = ScanView;

    closed spec fn view(&self) -> ScanView {
        ScanView { pending: self.readiness_pending, capture: self.capture@ }
    }
}

impl ReadinessScan {
    /// Starts a scan: readiness pending, nothing captured.
    pub fn new() -> (scan: Self)
        ensures
            scan@ == (ScanView { pending: true, capture: CaptureView::empty() }),
    {
        ReadinessScan { readiness_pending: true, capture: OutputCapture::new() }
    }

    /// Whether the readiness outcome is still to be reported.
    pub fn is_pending(&self) -> (pending: bool)
        ensures
            pending == self@.pending,
    {
        self.readiness_pending
    }

    /// Captures a line of stdout and returns the readiness outcome it
    /// settles, if readiness was still pending and the line is classified.
    pub fn observe_line(&mut self, line: &str) -> (outcome: Option<ReadinessOutcome>)
        ensures
            (final(self)@, outcome_view(outcome)) == scan_line(old(self)@, line@),
    {
        self.capture.append(line);
        self.capture.append("\n");
        if self.readiness_pending {
            let outcome = classify_line(line);
            if outcome.is_some() {
                self.readiness_pending = false;
            }
            outcome
        } else {
            None
        }
    }

    /// The diagnostic text of the stdout captured so far: every observed
    /// line, bounded, with the truncation marker when earlier lines were
    /// discarded.
    pub fn output(&self) -> (text: String)
        ensures
            text@ == self@.capture.rendered(),
    {
        self.capture.as_str()
    }

    /// Ends the scan when stdout closes, returning [`ReadinessOutcome::Eof`]
    /// if readiness was still pending.
    pub fn observe_eof(&mut self) -> (outcome: Option<ReadinessOutcome>)
        ensures
            (final(self)@, outcome_view(outcome)) == scan_eof(old(self)@),
    {
        if self.readiness_pending {
            self.readiness_pending = false;
            Some(ReadinessOutcome::Eof)
        } else {
            None
        }
    }
}

/// Once readiness is settled a scan reports nothing more.
proof fn lemma_settled_scan_reports_nothing(state: ScanView, lines: Seq<Seq<char>>)
    requires
        !state.pending,
    ensures
        reported(state, lines) == Seq::<Readiness>::empty(),
    decreases lines.len(),
{
    if lines.len() > 0 {
        lemma_settled_scan_reports_nothing(scan_line(state, lines[0]).0, lines.drop_first());
    }
}

/// A scan reports readiness exactly once, whatever stdout holds: the
/// outcome of the first classified line, or the end of the stream when no
/// line is classified before stdout closes.
pub proof fn law_readiness_reported_once(capture: CaptureView, lines: Seq<Seq<char>>)
    ensures
        reported(ScanView { pending: true, capture }, lines) == seq![first_classified(lines)],
    decreases lines.len(),
{
    if lines.len() > 0 {
        let (next, outcome) = scan_line(ScanView { pending: true, capture }, lines[0]);
        match outcome {
            Some(o) => {
                lemma_settled_scan_reports_nothing(next, lines.drop_first());
                assert(seq![o] + Seq::<Readiness>::empty() =~= seq![o]);
            },
            None => {
                law_readiness_reported_once(next.capture, lines.drop_first());
            },
        }
    }
}

/// Readiness comes only from a v1 `listening` event that names the
/// loopback host and a positive port, and the reported port is that port.
pub proof fn law_readiness_only_from_valid_listening(line: Seq<char>, port: u16)
    requires
        spec_classify_line(line) == Some(Readiness::Port(port)),
    ensures
        json_u64_at(line, "version"@) == Some(1u64),
        json_str_at(line, "event"@) == Some("listening"@),
        json_str_at(line, "host"@) == Some("127.0.0.1"@),
        json_u64_at(line, "port"@) == Some(port as u64),
        port != 0,
{
}

} // verus!
