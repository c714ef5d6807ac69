//! The error taxonomy of the runtime.
use vstd::prelude::*;

verus! {

/// `tungstenite::Error`, carried in a transport failure.
#[verifier::external_type_specification]
#[verifier::external_body]
pub struct ExWsError(tokio_tungstenite::tungstenite::Error);

/// Why a command, a subscription or a connection failed.
#[derive(Debug)]
pub enum CdpError {
    /// The connection failed at the I/O level.
    WebSocket(tokio_tungstenite::tungstenite::Error),
    /// A payload did not decode as the declared type.
    Serialization(serde_json::Error),
    /// The peer rejected the command; code and message are the peer's own.
    Protocol { code: i64, message: String },
    /// The connection ended while the caller waited.
    ConnectionClosed,
    /// The internal completion signal was lost.
    ChannelClosed,
    /// Discovering or opening the connection failed.
    ConnectionFailed(String),
}

impl CdpError {
    /// A protocol error with the given code and message.
    pub fn protocol(code: i64, message: String) -> (r: Self)
        ensures
            r matches CdpError::Protocol { code: c, message: m } && c == code && m@ == message@,
    {
        CdpError::Protocol { code, message }
    }

    /// Whether this is a protocol error.
    pub fn is_protocol_error(&self) -> (r: bool)
        ensures
            r == (*self is Protocol),
    {
        match self {
            CdpError::Protocol { .. } => true,
            _ => false,
        }
    }

    /// The peer's error code, for a protocol error.
    pub fn error_code(&self) -> (r: Option<i64>)
        ensures
            r == (match *self {
                CdpError::Protocol { code, .. } => Some(code),
                _ => None,
            }),
    {
        match self {
            CdpError::Protocol { code, .. } => Some(*code),
            _ => None,
        }
    }
}

} // verus!
