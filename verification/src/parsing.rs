//! The vocabulary of the document parser sidecar.
use vstd::prelude::*;

use crate::retrieval::{decimal, decimal_exec};
use crate::text::{chars_of, extend_chars, string_from_chars};

verus! {

broadcast use vstd::string::group_string_axioms;

/// Windows process creation flag that keeps a console window from opening.
pub const CREATE_NO_WINDOW: u32 = 0x0800_0000;

/// The creation flags with which sidecar processes are started.
pub fn windows_creation_flags() -> (r: u32)
    ensures
        r == CREATE_NO_WINDOW,
{
    CREATE_NO_WINDOW
}

#[derive(Debug, Clone, Copy, PartialEq, Eq, Structural)]
pub enum ParseErrorCode {
    InvalidRequest,
    Unsupported,
    Encrypted,
    Damaged,
    Timeout,
    TooLarge,
    ImageBasedPdf,
    Internal,
}

#[derive(Debug, Clone, PartialEq, Eq)]
pub enum ParserError {
    Start,
    Io,
    UnexpectedExit,
    InvalidResponse,
    Timeout,
    Protocol { code: ParseErrorCode, message: String },
}

pub open spec fn parse_code_name(code: ParseErrorCode) -> Seq<char> {
    match code {
        ParseErrorCode::InvalidRequest => "InvalidRequest"@,
        ParseErrorCode::Unsupported => "Unsupported"@,
        ParseErrorCode::Encrypted => "Encrypted"@,
        ParseErrorCode::Damaged => "Damaged"@,
        ParseErrorCode::Timeout => "Timeout"@,
        ParseErrorCode::TooLarge => "TooLarge"@,
        ParseErrorCode::ImageBasedPdf => "ImageBasedPdf"@,
        ParseErrorCode::Internal => "Internal"@,
    }
}

pub open spec fn spec_parser_error_message(e: ParserError) -> Seq<char> {
    match e {
        ParserError::Start => "parser sidecar could not be started"@,
        ParserError::Io => "parser sidecar I/O failed"@,
        ParserError::UnexpectedExit => "parser sidecar exited unexpectedly"@,
        ParserError::InvalidResponse => "parser sidecar returned an invalid response"@,
        ParserError::Timeout => "parser request timed out"@,
        ParserError::Protocol { code, .. } => "parser rejected the document: "@ + parse_code_name(
            code,
        ),
    }
}

impl ParseErrorCode {
    pub fn name(self) -> (r: &'static str)
        ensures
            r@ == parse_code_name(self),
    {
        match self {
            ParseErrorCode::InvalidRequest => "InvalidRequest",
            ParseErrorCode::Unsupported => "Unsupported",
            ParseErrorCode::Encrypted => "Encrypted",
            ParseErrorCode::Damaged => "Damaged",
            ParseErrorCode::Timeout => "Timeout",
            ParseErrorCode::TooLarge => "TooLarge",
            ParseErrorCode::ImageBasedPdf => "ImageBasedPdf",
            ParseErrorCode::Internal => "Internal",
        }
    }
}

impl ParserError {
    /// The error's description, as its `Display` shows it.
    pub fn message(&self) -> (r: String)
        ensures
            r@ == spec_parser_error_message(*self),
    {
        match self {
            ParserError::Start => String::from_str("parser sidecar could not be started"),
            ParserError::Io => String::from_str("parser sidecar I/O failed"),
            ParserError::UnexpectedExit => String::from_str("parser sidecar exited unexpectedly"),
            ParserError::InvalidResponse => String::from_str(
                "parser sidecar returned an invalid response",
            ),
            ParserError::Timeout => String::from_str("parser request timed out"),
            ParserError::Protocol { code, .. } => {
                let head = String::from_str("parser rejected the document: ");
                head.concat(code.name())
            },
        }
    }
}


// ---------------------------------------------------------------------------
// Replies
// ---------------------------------------------------------------------------

/// A JSON value of `serde_json`, carried through unread.
#[verifier::external_type_specification]
#[verifier::external_body]
pub struct ExJsonValue(serde_json::Value);

/// A document as a sidecar hands it back.
#[derive(Debug)]
pub struct ParsedDocument {
    pub title: Option<String>,
    pub markdown: String,
    pub plain_text: String,
    pub blocks: Vec<serde_json::Value>,
    pub metadata: serde_json::Value,
    pub warnings: Vec<serde_json::Value>,
}

/// The error half of a reply.
#[derive(Debug)]
pub struct ParserReplyError {
    pub code: ParseErrorCode,
    pub message: String,
}

/// One reply line of the parser sidecar.
#[derive(Debug)]
pub struct ParserReply {
    pub id: Option<String>,
    pub ok: bool,
    pub document: Option<ParsedDocument>,
    pub error: Option<ParserReplyError>,
}

/// Where a reply goes: to the request it names, or, when it names none, as
/// a failure to every request of the sidecar's current process.
#[derive(Debug)]
pub enum ReplyRoute {
    Complete { id: String, result: Result<ParsedDocument, ParserError> },
    FailGeneration(ParserError),
}

/// A reply's result: a document when it succeeded with one and no error,
/// the sidecar's error when it failed with one and no document, an invalid
/// response otherwise.
pub open spec fn spec_parser_outcome(
    ok: bool,
    document: Option<ParsedDocument>,
    error: Option<ParserReplyError>,
) -> Result<ParsedDocument, ParserError> {
    match (ok, document, error) {
        (true, Some(d), None) => Ok(d),
        (false, None, Some(e)) => Err(ParserError::Protocol { code: e.code, message: e.message }),
        _ => Err(ParserError::InvalidResponse),
    }
}

/// Routes one reply of the parser sidecar.
pub fn route_parser_reply(reply: ParserReply) -> (r: ReplyRoute)
    ensures
        match reply.id {
            None => r == ReplyRoute::FailGeneration(ParserError::InvalidResponse),
            Some(id) => r == ReplyRoute::Complete {
                id,
                result: spec_parser_outcome(reply.ok, reply.document, reply.error),
            },
        },
{
    let ParserReply { id, ok, document, error } = reply;
    match id {
        None => ReplyRoute::FailGeneration(ParserError::InvalidResponse),
        Some(id) => {
            let result = match (ok, document, error) {
                (true, Some(d), None) => Ok(d),
                (false, None, Some(e)) => Err(
                    ParserError::Protocol { code: e.code, message: e.message },
                ),
                _ => Err(ParserError::InvalidResponse),
            };
            ReplyRoute::Complete { id, result }
        },
    }
}

/// The id of the parser request with this sequence number: `parse-` and
/// the number in decimal.
pub fn parse_request_id(sequence: u64) -> (r: String)
    ensures
        r@ == "parse-"@ + decimal(sequence as nat),
{
    let mut out = chars_of("parse-");
    extend_chars(&mut out, decimal_exec(sequence).as_slice());
    string_from_chars(out.as_slice())
}

/// Sends a request once more when the sidecar exited under the first try;
/// any other outcome of the first try is final.
pub fn parse_with_retry<T, F: Fn() -> Result<T, ParserError>>(send: &F) -> (r: Result<T, ParserError>)
    requires
        send.requires(()),
    ensures
        exists|first: Result<T, ParserError>|
            #![trigger send.ensures((), first)]
            send.ensures((), first) && if first == Err::<T, ParserError>(ParserError::UnexpectedExit) {
                send.ensures((), r)
            } else {
                r == first
            },
{
    let first = send();
    match first {
        Err(ParserError::UnexpectedExit) => send(),
        other => other,
    }
}

} // verus!
