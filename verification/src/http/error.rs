//! Errors met while reading a request or answering it.

use vstd::prelude::*;
use crate::text::IntErrorKind;

verus! {

/// An error met while reading or answering a request.
#[derive(Clone, Debug, PartialEq, Eq)]
pub enum HttpError {
    /// The peer closed the stream before a line was complete.
    Eof,
    /// A line was no valid UTF-8; the message says where.
    InvalidUtf8(String),
    /// The request line did not have exactly three parts.
    BadRequest,
    /// The `Content-Length` value was no decimal number.
    InvalidContentLength(IntErrorKind),
    /// Reading from or writing to the stream failed.
    Io { unexpected_eof: bool, message: String },
    /// The request handler failed.
    Handler(String),
}

/// The text that each error displays.
pub open spec fn error_text(e: HttpError) -> Seq<char> {
    match e {
        HttpError::Eof => "EOF"@,
        HttpError::InvalidUtf8(m) => m@,
        HttpError::BadRequest => "Bad Request"@,
        HttpError::InvalidContentLength(k) => match k {
            IntErrorKind::Empty => "cannot parse integer from empty string"@,
            IntErrorKind::InvalidDigit => "invalid digit found in string"@,
            IntErrorKind::PosOverflow => "number too large to fit in target type"@,
        },
        HttpError::Io { unexpected_eof, message } => message@,
        HttpError::Handler(m) => m@,
    }
}

impl HttpError {
    /// The text of the error, as it is shown to the peer.
    pub fn message(&self) -> (r: String)
        ensures
            r@ == error_text(*self),
    {
        match self {
            HttpError::Eof => String::from_str("EOF"),
            HttpError::InvalidUtf8(m) => m.clone(),
            HttpError::BadRequest => String::from_str("Bad Request"),
            HttpError::InvalidContentLength(k) => match k {
                IntErrorKind::Empty => String::from_str("cannot parse integer from empty string"),
                IntErrorKind::InvalidDigit => String::from_str("invalid digit found in string"),
                IntErrorKind::PosOverflow => String::from_str(
                    "number too large to fit in target type",
                ),
            },
            HttpError::Io { unexpected_eof: _, message } => message.clone(),
            HttpError::Handler(m) => m.clone(),
        }
    }

    /// Whether the error means that the peer has gone and the connection ends.
    pub fn ends_connection(&self) -> (r: bool)
        ensures
            r == (*self is Eof || (*self matches HttpError::Io { unexpected_eof, .. } && unexpected_eof)),
    {
        match self {
            HttpError::Eof => true,
            HttpError::Io { unexpected_eof, message: _ } => *unexpected_eof,
            _ => false,
        }
    }
}

} // verus!
