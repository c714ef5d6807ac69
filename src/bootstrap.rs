//! Finding the connection endpoint: a WebSocket address is used as given;
//! anything else names a host whose metadata document gives the address.
use crate::error::CdpError;
use crate::json::{member_str_of, read_str};
use crate::text::starts_with;
use vstd::prelude::*;
use vstd::string::*;

verus! {

/// `host` is a WebSocket address, to connect to directly.
pub open spec fn is_direct(host: Seq<char>) -> bool {
    "ws://"@.is_prefix_of(host) || "wss://"@.is_prefix_of(host)
}

/// The address of the metadata document of `host`: `http://` is put in front
/// unless `host` already has an HTTP scheme, and `/json/version` follows.
pub open spec fn version_url_text(host: Seq<char>) -> Seq<char> {
    let base = if "http://"@.is_prefix_of(host) || "https://"@.is_prefix_of(host) {
        host
    } else {
        "http://"@ + host
    };
    base + "/json/version"@
}

/// Whether `host` is a WebSocket address, to connect to directly.
pub fn is_direct_endpoint(host: &str) -> (r: bool)
    ensures
        r == is_direct(host@),
{
    starts_with(host, "ws://") || starts_with(host, "wss://")
}

/// The address of the metadata document that names `host`'s endpoint.
pub fn version_url(host: &str) -> (r: String)
    ensures
        r@ == version_url_text(host@),
{
    let mut out = if starts_with(host, "http://") || starts_with(host, "https://") {
        host.to_owned()
    } else {
        let mut b = String::from_str("http://");
        b.append(host);
        b
    };
    out.append("/json/version");
    out
}

/// The endpoint named by a metadata document, given as its text: the string
/// member `webSocketDebuggerUrl`. A document without one, or text that is not
/// JSON, is a connection failure.
pub fn ws_url_from_metadata(doc: &str) -> (r: Result<String, CdpError>)
    ensures
        match member_str_of(doc@, "webSocketDebuggerUrl"@) {
            Some(s) => r matches Ok(u) && u@ == s,
            None => r matches Err(CdpError::ConnectionFailed(m)) && m@ == "No webSocketDebuggerUrl found"@,
        },
{
    match read_str(doc, "webSocketDebuggerUrl") {
        Some(s) => Ok(s),
        None => Err(CdpError::ConnectionFailed(String::from_str("No webSocketDebuggerUrl found"))),
    }
}

} // verus!
