use aia::parse::{parse_reply, ParsedIntent, ParseError};

#[test]
fn round_trip_command() {
    let reply = "noise [JSON] {\"type\":\"command\",\"command\":\"ls\"}```";
    let (normalized, intent) = parse_reply(reply).expect("payload should parse");
    assert_eq!(normalized, "{\"type\":\"command\",\"command\":\"ls\"}");
    assert_eq!(intent, ParsedIntent::Command { command: "ls".to_string() });
}

#[test]
fn parse_is_idempotent_on_normalized_text() {
    let reply = "noise [JSON] {\"type\":\"command\",\"command\":\"ls\"}```";
    let (normalized, intent) = parse_reply(reply).expect("payload should parse");
    let (normalized_again, intent_again) = parse_reply(&normalized).expect("normalized text should parse");
    assert_eq!(normalized_again, normalized);
    assert_eq!(intent_again, intent);
}

#[test]
fn no_payload_reports_error() {
    let reply = "no structured payload here";
    assert_eq!(parse_reply(reply), Err(ParseError::MissingPayload));
}

#[test]
fn marker_without_brace_reports_error() {
    assert_eq!(parse_reply("preamble [JSON] nothing structured"), Err(ParseError::MissingPayload));
}

#[test]
fn bare_question_payload_parses() {
    let reply = "{\"type\":\"question\",\"question\":\"Which file?\"}";
    let (normalized, intent) = parse_reply(reply).expect("bare payload should parse");
    assert_eq!(normalized, reply);
    assert_eq!(intent, ParsedIntent::Question { question: "Which file?".to_string() });
}

#[test]
fn fences_and_whitespace_are_stripped() {
    let reply = "sure [JSON] ```json\n{\"type\":\"answer\",\"answer\":\"use grep\"}\n``` \n";
    let (normalized, intent) = parse_reply(reply).expect("payload should parse");
    assert_eq!(normalized, "{\"type\":\"answer\",\"answer\":\"use grep\"}");
    assert_eq!(intent, ParsedIntent::Answer { answer: "use grep".to_string() });
}

#[test]
fn malformed_json_reports_detail() {
    match parse_reply("[JSON] {not a document") {
        Err(ParseError::MalformedJson { detail }) => assert!(!detail.is_empty()),
        other => panic!("expected a malformed-payload error, got {:?}", other),
    }
}

#[test]
fn unknown_type_is_rejected() {
    let reply = "[JSON] {\"type\":\"poem\",\"poem\":\"x\"}";
    assert_eq!(parse_reply(reply), Err(ParseError::UnknownOrInvalidShape));
}

#[test]
fn missing_required_field_is_rejected() {
    let reply = "[JSON] {\"type\":\"command\"}";
    assert_eq!(parse_reply(reply), Err(ParseError::UnknownOrInvalidShape));
}

#[test]
fn empty_required_field_is_rejected() {
    let reply = "[JSON] {\"type\":\"command\",\"command\":\"\"}";
    assert_eq!(parse_reply(reply), Err(ParseError::UnknownOrInvalidShape));
}

#[test]
fn non_string_required_field_is_rejected() {
    let reply = "[JSON] {\"type\":\"command\",\"command\":3}";
    assert_eq!(parse_reply(reply), Err(ParseError::UnknownOrInvalidShape));
}

#[test]
fn split_happens_at_first_marker() {
    let reply = "preamble [JSON] still prose [JSON] {\"type\":\"answer\",\"answer\":\"first\"}";
    let (normalized, intent) = parse_reply(reply).expect("payload should parse");
    assert_eq!(normalized, "{\"type\":\"answer\",\"answer\":\"first\"}");
    assert_eq!(intent, ParsedIntent::Answer { answer: "first".to_string() });
}
