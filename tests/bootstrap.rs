use cdpkit::bootstrap::{is_direct_endpoint, version_url, ws_url_from_metadata};
use cdpkit::CdpError;

#[test]
fn websocket_addresses_are_direct() {
    assert!(is_direct_endpoint("ws://localhost:9222/devtools/browser/abc"));
    assert!(is_direct_endpoint("wss://example.com/x"));
    assert!(!is_direct_endpoint("localhost:9222"));
    assert!(!is_direct_endpoint("http://localhost:9222"));
    assert!(!is_direct_endpoint(""));
}

#[test]
fn metadata_url_gets_scheme_and_path() {
    assert_eq!(version_url("localhost:9222"), "http://localhost:9222/json/version");
    assert_eq!(version_url("http://127.0.0.1:9222"), "http://127.0.0.1:9222/json/version");
    assert_eq!(version_url("https://h"), "https://h/json/version");
}

#[test]
fn endpoint_from_metadata() {
    let doc = "{\"Browser\":\"Chrome\",\"webSocketDebuggerUrl\":\"ws://localhost:9222/devtools/browser/1\"}";
    assert_eq!(ws_url_from_metadata(doc).unwrap(), "ws://localhost:9222/devtools/browser/1");
    for bad in ["{\"Browser\":\"Chrome\"}", "{\"webSocketDebuggerUrl\":1}", "not json", "[]"] {
        match ws_url_from_metadata(bad) {
            Err(CdpError::ConnectionFailed(m)) => assert_eq!(m, "No webSocketDebuggerUrl found"),
            _ => panic!("expected a connection failure"),
        }
    }
}
