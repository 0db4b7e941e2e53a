//! The typed failures a request parse can end in.
//!
//! Every error is fatal to the parse that raised it: the parser returns the
//! first error it meets and no partial request.

use vstd::prelude::*;

verus! {

/// Why a request parse failed.
///
/// Variants that carry a `String` hold the offending token verbatim, so that
/// the caller can surface a diagnostic.
#[derive(Debug)]
pub enum ParseError {
    /// The first line did not hold exactly three space-separated tokens.
    MalformedRequestLine,
    /// The method token matched no standard method and was not all-alphabetic.
    InvalidMethod(String),
    /// The version token did not match `HTTP/<int>.<int>`.
    MalformedVersion,
    /// A header line held no `:` separator.
    MalformedHeader,
    /// A `Host` value held more than one `:` separator.
    MalformedHost,
    /// The segment after the `:` of a `Host` value was not a port number.
    InvalidPort(String),
    /// A `Content-Length` value was not a non-negative integer.
    InvalidContentLength(String),
    /// A line of the stream was not valid UTF-8.
    IoError,
    /// The stream ended before the request line was available.
    UnexpectedEof,
}

/// The mathematical image of a [`ParseError`]: token payloads as `Seq<char>`.
pub enum ParseErrorV {
    MalformedRequestLine,
    InvalidMethod(Seq<char>),
    MalformedVersion,
    MalformedHeader,
    MalformedHost,
    InvalidPort(Seq<char>),
    InvalidContentLength(Seq<char>),
    IoError,
    UnexpectedEof,
}

impl View for ParseError {
    type V = ParseErrorV;

    open spec fn view(&self) -> ParseErrorV {
        match self {
            ParseError::MalformedRequestLine => ParseErrorV::MalformedRequestLine,
            ParseError::InvalidMethod(t) => ParseErrorV::InvalidMethod(t@),
            ParseError::MalformedVersion => ParseErrorV::MalformedVersion,
            ParseError::MalformedHeader => ParseErrorV::MalformedHeader,
            ParseError::MalformedHost => ParseErrorV::MalformedHost,
            ParseError::InvalidPort(t) => ParseErrorV::InvalidPort(t@),
            ParseError::InvalidContentLength(t) => ParseErrorV::InvalidContentLength(t@),
            ParseError::IoError => ParseErrorV::IoError,
            ParseError::UnexpectedEof => ParseErrorV::UnexpectedEof,
        }
    }
}

/// The human-readable diagnostic an error carries.
pub open spec fn spec_error_message(e: ParseErrorV) -> Seq<char> {
    match e {
        ParseErrorV::MalformedRequestLine => "expected 3 values in request line: method SP uri SP version"@,
        ParseErrorV::InvalidMethod(t) => "invalid extension method: "@ + t,
        ParseErrorV::MalformedVersion => "expected version format: HTTP/<int>.<int>"@,
        ParseErrorV::MalformedHeader => "expected a colon in header to delimit 'name: value'"@,
        ParseErrorV::MalformedHost => "expected hostname:port or hostname"@,
        ParseErrorV::InvalidPort(t) => "failed to parse port: "@ + t,
        ParseErrorV::InvalidContentLength(t) => "failed to parse content length: "@ + t,
        ParseErrorV::IoError => "failed to read from the stream"@,
        ParseErrorV::UnexpectedEof => "stream ended before a request line"@,
    }
}

impl ParseError {
    /// The diagnostic for this error, the offending token included where the
    /// variant carries one.
    pub fn message(&self) -> (r: String)
        ensures
            r@ == spec_error_message(self@),
    {
        match self {
            ParseError::MalformedRequestLine => String::from_str(
                "expected 3 values in request line: method SP uri SP version",
            ),
            ParseError::InvalidMethod(t) => {
                let mut m = String::from_str("invalid extension method: ");
                m.append(t.as_str());
                m
            },
            ParseError::MalformedVersion => String::from_str(
                "expected version format: HTTP/<int>.<int>",
            ),
            ParseError::MalformedHeader => String::from_str(
                "expected a colon in header to delimit 'name: value'",
            ),
            ParseError::MalformedHost => String::from_str("expected hostname:port or hostname"),
            ParseError::InvalidPort(t) => {
                let mut m = String::from_str("failed to parse port: ");
                m.append(t.as_str());
                m
            },
            ParseError::InvalidContentLength(t) => {
                let mut m = String::from_str("failed to parse content length: ");
                m.append(t.as_str());
                m
            },
            ParseError::IoError => String::from_str("failed to read from the stream"),
            ParseError::UnexpectedEof => String::from_str("stream ended before a request line"),
        }
    }
}

} // verus!
