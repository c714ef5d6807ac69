use cdpkit::envelope::{classify, command_frame, decimal_text, parse_frame, Envelope, ErrorBody, FrameFields};
use cdpkit::CdpError;

fn no_fields() -> FrameFields {
    FrameFields { id: None, error: None, result: None, method: None, params: None }
}

#[test]
fn frame_without_session() {
    assert_eq!(
        command_frame(42, "DOM.getDocument", "{}", None),
        "{\"id\":42,\"method\":\"DOM.getDocument\",\"params\":{}}"
    );
}

#[test]
fn frame_escapes_names() {
    assert_eq!(
        command_frame(18446744073709551615, "a\"b", "null", Some("x\\y")),
        "{\"id\":18446744073709551615,\"method\":\"a\\\"b\",\"params\":null,\"sessionId\":\"x\\\\y\"}"
    );
}

#[test]
fn classify_reply_with_result() {
    let v: serde_json::Value = serde_json::from_str("{\"a\":1}").unwrap();
    let mut f = no_fields();
    f.id = Some(3);
    f.result = Some(v.clone());
    f.method = Some("ignored".to_string());
    match classify(f) {
        Envelope::CommandResult { id, reply: Ok(Some(r)) } => {
            assert_eq!(id, 3);
            assert_eq!(r, v);
        }
        _ => panic!("expected a reply"),
    }
}

#[test]
fn classify_reply_with_error() {
    let mut f = no_fields();
    f.id = Some(5);
    f.error = Some(ErrorBody { code: Some(-32601), message: Some("method not found".to_string()) });
    match classify(f) {
        Envelope::CommandResult { id: 5, reply: Err(CdpError::Protocol { code, message }) } => {
            assert_eq!(code, -32601);
            assert_eq!(message, "method not found");
        }
        _ => panic!("expected a protocol error"),
    }
}

#[test]
fn classify_notification_and_other() {
    let mut f = no_fields();
    f.method = Some("Page.loadEventFired".to_string());
    match classify(f) {
        Envelope::Notification { method, params } => {
            assert_eq!(method, "Page.loadEventFired");
            assert!(params.is_none());
        }
        _ => panic!("expected a notification"),
    }
    assert!(matches!(classify(no_fields()), Envelope::Unrecognized));
}

#[test]
fn parse_frame_reads_members() {
    match parse_frame("{\"id\":7,\"result\":{\"x\":true}}") {
        Envelope::CommandResult { id: 7, reply: Ok(Some(r)) } => {
            assert_eq!(r.get("x").and_then(|v| v.as_bool()), Some(true))
        }
        _ => panic!("expected a reply"),
    }
    match parse_frame("{\"id\":8,\"error\":{\"code\":12,\"message\":\"no\"}}") {
        Envelope::CommandResult { id: 8, reply: Err(CdpError::Protocol { code: 12, message }) } => {
            assert_eq!(message, "no")
        }
        _ => panic!("expected a protocol error"),
    }
    match parse_frame("{\"method\":\"T.e\",\"params\":[1]}") {
        Envelope::Notification { method, params: Some(p) } => {
            assert_eq!(method, "T.e");
            assert!(p.is_array());
        }
        _ => panic!("expected a notification"),
    }
    assert!(matches!(parse_frame("{\"id\":-1}"), Envelope::Unrecognized));
    assert!(matches!(parse_frame("{"), Envelope::Unrecognized));
    assert!(matches!(parse_frame("{\"method\":3}"), Envelope::Unrecognized));
}

#[test]
fn decimal_digits() {
    assert_eq!(decimal_text(0), "0");
    assert_eq!(decimal_text(9), "9");
    assert_eq!(decimal_text(10), "10");
    assert_eq!(decimal_text(1234), "1234");
    assert_eq!(decimal_text(u64::MAX), "18446744073709551615");
}

#[test]
fn frame_escapes_control_characters() {
    assert_eq!(
        command_frame(1, "a\u{1}b\n\t\u{8}\u{c}\r\u{1f}é", "{}", None),
        "{\"id\":1,\"method\":\"a\\u0001b\\n\\t\\b\\f\\r\\u001fé\",\"params\":{}}"
    );
}

#[test]
fn parse_frame_error_defaults_and_missing_payloads() {
    match parse_frame("{\"id\":2,\"error\":{\"code\":\"x\"}}") {
        Envelope::CommandResult { id: 2, reply: Err(CdpError::Protocol { code, message }) } => {
            assert_eq!(code, -1);
            assert_eq!(message, "Unknown error");
        }
        _ => panic!("expected a protocol error"),
    }
    assert!(matches!(parse_frame("{\"id\":3}"), Envelope::CommandResult { id: 3, reply: Ok(None) }));
    assert!(matches!(
        parse_frame("{\"method\":\"A.b\"}"),
        Envelope::Notification { params: None, .. }
    ));
}
