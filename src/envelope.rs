//! The wire envelopes: the text of an outbound command, and the reading of an
//! inbound frame into a reply, a notification, or nothing the runtime knows.
use crate::error::CdpError;
use crate::text::push_char;
use crate::json::{
    has_member_of, json_string_text, parses_as_json, member_str_of, member_u64_of, nested_i64_of, nested_str_of,
    read_member, read_nested_i64, read_nested_str, read_str, read_u64, string_to_json,
};
use serde_json::Value;
use vstd::prelude::*;
use vstd::string::*;

verus! {

/// The decimal digit for `d < 10`.
pub open spec fn digit_char(d: nat) -> char {
    if d == 0 { '0' }
    else if d == 1 { '1' }
    else if d == 2 { '2' }
    else if d == 3 { '3' }
    else if d == 4 { '4' }
    else if d == 5 { '5' }
    else if d == 6 { '6' }
    else if d == 7 { '7' }
    else if d == 8 { '8' }
    else { '9' }
}

/// The decimal text of `n`, without sign or leading zeros.
pub open spec fn decimal(n: nat) -> Seq<char>
    decreases n,
{
    if n < 10 {
        seq![digit_char(n)]
    } else {
        decimal(n / 10) + seq![digit_char(n % 10)]
    }
}

fn digit_of(d: u64) -> (c: char)
    requires
        d < 10,
    ensures
        c == digit_char(d as nat),
{
    if d == 0 { '0' }
    else if d == 1 { '1' }
    else if d == 2 { '2' }
    else if d == 3 { '3' }
    else if d == 4 { '4' }
    else if d == 5 { '5' }
    else if d == 6 { '6' }
    else if d == 7 { '7' }
    else if d == 8 { '8' }
    else { '9' }
}

/// The decimal text of `n`.
pub fn decimal_text(n: u64) -> (r: String)
    ensures
        r@ == decimal(n as nat),
{
    let mut m: u64 = n / 10;
    let mut digits: Vec<char> = vec![digit_of(n % 10)];
    assert(decimal(n as nat) == (if m > 0 { decimal(m as nat) } else { Seq::<char>::empty() }) + digits@);
    while m > 0
        invariant
            decimal(n as nat) == (if m > 0 { decimal(m as nat) } else { Seq::<char>::empty() }) + digits@,
        decreases m,
    {
        let d = digit_of(m % 10);
        proof {
            let rest = if m / 10 > 0 { decimal((m / 10) as nat) } else { Seq::<char>::empty() };
            assert(decimal(m as nat) == rest + seq![d]);
            assert(rest + (seq![d] + digits@) =~= rest + seq![d] + digits@);
        }
        let ghost before = digits@;
        digits.insert(0, d);
        assert(digits@ =~= seq![d] + before);
        m = m / 10;
    }
    let mut out = String::new();
    let mut i: usize = 0;
    while i < digits.len()
        invariant
            0 <= i <= digits@.len(),
            out@ == digits@.take(i as int),
        decreases digits@.len() - i,
    {
        push_char(&mut out, digits[i]);
        assert(digits@.take(i as int + 1) =~= digits@.take(i as int).push(digits@[i as int]));
        i += 1;
    }
    assert(digits@.take(digits@.len() as int) =~= digits@);
    out
}

/// The text of an outbound command: its id, its wire method name, its
/// parameters (already JSON text), and the session it targets, if any.
pub open spec fn command_text(
    id: u64,
    method: Seq<char>,
    params: Seq<char>,
    session_id: Option<Seq<char>>,
) -> Seq<char> {
    "{\"id\":"@ + decimal(id as nat) + ",\"method\":"@ + json_string_text(method) + ",\"params\":"@
        + params + match session_id {
        Some(s) => ",\"sessionId\":"@ + json_string_text(s),
        None => Seq::empty(),
    } + "}"@
}

/// Builds the text of an outbound command.
pub fn command_frame(id: u64, method: &str, params_json: &str, session_id: Option<&str>) -> (r:
    String)
    ensures
        r@ == command_text(
            id,
            method@,
            params_json@,
            match session_id {
                Some(s) => Some(s@),
                None => None,
            },
        ),
{
    let mut out = String::from_str("{\"id\":");
    let digits = decimal_text(id);
    out.append(digits.as_str());
    out.append(",\"method\":");
    let m = string_to_json(method);
    out.append(m.as_str());
    out.append(",\"params\":");
    out.append(params_json);
    let ghost before_session = out@;
    match session_id {
        Some(s) => {
            out.append(",\"sessionId\":");
            let q = string_to_json(s);
            out.append(q.as_str());
        },
        None => {},
    }
    out.append("}");
    proof {
        let tail = match session_id {
            Some(s) => ",\"sessionId\":"@ + json_string_text(s@),
            None => Seq::<char>::empty(),
        };
        assert(out@ =~= before_session + tail + "}"@);
    }
    out
}

/// The members of a peer error object that the runtime reads.
pub struct ErrorBody {
    pub code: Option<i64>,
    pub message: Option<String>,
}

/// The members of an inbound frame that the runtime reads, as plain values.
pub struct FrameFields {
    /// `id`, when it is an unsigned integer.
    pub id: Option<u64>,
    /// `error`, when present.
    pub error: Option<ErrorBody>,
    /// `result`, when present.
    pub result: Option<Value>,
    /// `method`, when it is a string.
    pub method: Option<String>,
    /// `params`, when present.
    pub params: Option<Value>,
}

/// An inbound frame, classified.
pub enum Envelope {
    /// The reply to the command sent with `id`: its payload (absent when the
    /// frame had none), or the peer's rejection.
    CommandResult { id: u64, reply: Result<Option<Value>, CdpError> },
    /// A notification on topic `method`, with its payload (absent when the
    /// frame had none).
    Notification { method: String, params: Option<Value> },
    /// Anything else.
    Unrecognized,
}

/// What a frame's members make of it: a reply when it has an id, else a
/// notification when it has a method, else nothing known.
pub open spec fn classified(f: FrameFields, e: Envelope) -> bool {
    match f.id {
        Some(id) => e matches Envelope::CommandResult { id: i, reply } && i == id && match f.error {
            Some(body) => reply matches Err(CdpError::Protocol { code, message }) && code == (
            match body.code {
                Some(c) => c,
                None => -1i64,
            }) && message@ == (match body.message {
                Some(m) => m@,
                None => "Unknown error"@,
            }),
            None => reply == Ok::<Option<Value>, CdpError>(f.result),
        },
        None => match f.method {
            Some(m) => e matches Envelope::Notification { method, params } && method@ == m@
                && params == f.params,
            None => e is Unrecognized,
        },
    }
}

/// Classifies a frame by its members.
pub fn classify(fields: FrameFields) -> (e: Envelope)
    ensures
        classified(fields, e),
{
    let ghost f = fields;
    match fields.id {
        Some(id) => match fields.error {
            Some(body) => {
                let code = match body.code {
                    Some(c) => c,
                    None => -1,
                };
                let message = match body.message {
                    Some(m) => m,
                    None => String::from_str("Unknown error"),
                };
                Envelope::CommandResult { id, reply: Err(CdpError::Protocol { code, message }) }
            },
            None => Envelope::CommandResult { id, reply: Ok(fields.result) },
        },
        None => match fields.method {
            Some(method) => Envelope::Notification { method, params: fields.params },
            None => Envelope::Unrecognized,
        },
    }
}

/// The reply that a frame with an id carries: the peer's rejection when it
/// has an `error` member (code -1 and message "Unknown error" where those are
/// missing), else its `result` member, when present.
pub open spec fn reply_of_frame(text: Seq<char>, reply: Result<Option<Value>, CdpError>) -> bool {
    if has_member_of(text, "error"@) {
        reply matches Err(CdpError::Protocol { code, message }) && code == (match nested_i64_of(
            text,
            "error"@,
            "code"@,
        ) {
            Some(c) => c,
            None => -1i64,
        }) && message@ == (match nested_str_of(text, "error"@, "message"@) {
            Some(m) => m,
            None => "Unknown error"@,
        })
    } else {
        reply matches Ok(p) && p is Some == has_member_of(text, "result"@)
    }
}

/// What an inbound text frame is: a reply when it has an unsigned integer
/// `id`, else a notification when it has a string `method` (with its `params`
/// when present), else nothing known; text that is not JSON is nothing known.
pub open spec fn envelope_of_frame(text: Seq<char>, e: Envelope) -> bool {
    match member_u64_of(text, "id"@) {
        Some(k) => e matches Envelope::CommandResult { id, reply } && id == k && reply_of_frame(
            text,
            reply,
        ),
        None => match member_str_of(text, "method"@) {
            Some(m) => e matches Envelope::Notification { method, params } && method@ == m && params
                is Some == has_member_of(text, "params"@),
            None => e is Unrecognized,
        },
    }
}

/// Parses and classifies an inbound text frame, reading only the members
/// that decide what it is.
pub fn parse_frame(text: &str) -> (e: Envelope)
    ensures
        envelope_of_frame(text@, e),
        !parses_as_json(text@) ==> e is Unrecognized,
{
    match read_u64(text, "id") {
        Some(id) => {
            if read_member(text, "error").is_some() {
                let code = match read_nested_i64(text, "error", "code") {
                    Some(c) => c,
                    None => -1,
                };
                let message = match read_nested_str(text, "error", "message") {
                    Some(m) => m,
                    None => String::from_str("Unknown error"),
                };
                Envelope::CommandResult { id, reply: Err(CdpError::Protocol { code, message }) }
            } else {
                Envelope::CommandResult { id, reply: Ok(read_member(text, "result")) }
            }
        },
        None => match read_str(text, "method") {
            Some(method) => Envelope::Notification { method, params: read_member(text, "params") },
            None => Envelope::Unrecognized,
        },
    }
}

} // verus!
