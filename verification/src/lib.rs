//! A verified parser for HTTP/1.x requests.
//!
//! The library turns a buffered byte sequence, as a transport layer would
//! collect it from one connection, into a structured request: a request line
//! (method, target URI, protocol version), four containers of classified
//! headers, and an optional body delimited by a declared `Content-Length`.
//! Every parsing function is specified against a mathematical model of the
//! wire grammar and verified with Verus.

pub mod containers;
pub mod errors;
pub mod headers;
pub mod host;
pub mod method;
pub mod request;
pub mod request_line;
pub mod strutil;

pub use containers::{EntityHeaders, GeneralHeaders, RequestHeaders, ResponseHeaders};
pub use errors::ParseError;
pub use headers::{EntityHeader, GeneralHeader, RequestHeader, ResponseHeader};
pub use host::{parse_host_from_wire, Host};
pub use method::{is_valid_extension_method, parse_method_from_wire, Method};
pub use request::{insert_header, parse_http_request, read_body, split_header, HttpRequest};
pub use request_line::{parse_request_line, parse_version_numbers, RequestLine};

use vstd::prelude::*;

verus! {

/// Maps a `Result` of viewable values to the `Result` of their views, so that
/// contracts can state in one clause what a parser returns in either outcome.
pub open spec fn res_view<T: View, E: View>(r: Result<T, E>) -> Result<T::V, E::V> {
    match r {
        Ok(t) => Ok(t@),
        Err(e) => Err(e@),
    }
}

/// Maps an optional viewable value to the option of its view.
pub open spec fn opt_view<T: View>(o: Option<T>) -> Option<T::V> {
    match o {
        Some(t) => Some(t@),
        None => None,
    }
}

} // verus!
