use cdpkit::CdpError;

#[test]
fn protocol_constructor_and_queries() {
    let e = CdpError::protocol(-32000, "boom".to_string());
    assert!(e.is_protocol_error());
    assert_eq!(e.error_code(), Some(-32000));
    match e {
        CdpError::Protocol { code, message } => {
            assert_eq!(code, -32000);
            assert_eq!(message, "boom");
        }
        _ => panic!("expected a protocol error"),
    }
}

#[test]
fn other_errors_have_no_code() {
    for e in [
        CdpError::ConnectionClosed,
        CdpError::ChannelClosed,
        CdpError::ConnectionFailed("x".to_string()),
    ] {
        assert!(!e.is_protocol_error());
        assert_eq!(e.error_code(), None);
    }
    let bad = serde_json::from_str::<serde_json::Value>("{").unwrap_err();
    let e = CdpError::Serialization(bad);
    assert!(!e.is_protocol_error());
    assert_eq!(e.error_code(), None);
}
