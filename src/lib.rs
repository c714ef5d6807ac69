//! Client runtime for a JSON-message remote-control protocol over one duplex
//! connection: request/reply correlation, topic-based notification fan-out,
//! and the wire envelopes that carry both; and the generator of the typed
//! command and event bindings from a protocol description.

pub mod bootstrap;
pub mod envelope;
pub mod error;
pub mod generator;
pub mod json;
pub mod laws;
pub mod listeners;
pub mod naming;
pub mod parser;
pub mod pending;
pub mod session;
pub mod text;

pub use error::CdpError;
