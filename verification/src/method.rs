//! The request method: the seven standard HTTP tokens, plus an extension
//! variant for any other all-alphabetic token.

use vstd::prelude::*;

use crate::errors::{ParseError, ParseErrorV};
use crate::res_view;
use crate::strutil::{all_alpha, all_alpha_str, str_eq};

verus! {

/// An HTTP request method. A token outside the standard seven is kept
/// verbatim as an extension when it is all ASCII alphabetic.
#[derive(Debug)]
pub enum Method {
    OPTIONS,
    GET,
    POST,
    PUT,
    DELETE,
    TRACE,
    CONNECT,
    EXTENSION(String),
}

/// The mathematical image of a [`Method`].
pub enum MethodV {
    OPTIONS,
    GET,
    POST,
    PUT,
    DELETE,
    TRACE,
    CONNECT,
    EXTENSION(Seq<char>),
}

impl View for Method {
    type V = MethodV;

    open spec fn view(&self) -> MethodV {
        match self {
            Method::OPTIONS => MethodV::OPTIONS,
            Method::GET => MethodV::GET,
            Method::POST => MethodV::POST,
            Method::PUT => MethodV::PUT,
            Method::DELETE => MethodV::DELETE,
            Method::TRACE => MethodV::TRACE,
            Method::CONNECT => MethodV::CONNECT,
            Method::EXTENSION(t) => MethodV::EXTENSION(t@),
        }
    }
}

/// The canonical token of a method; an extension renders as the token it was
/// parsed from.
pub open spec fn spec_method_token(m: MethodV) -> Seq<char> {
    match m {
        MethodV::OPTIONS => "OPTIONS"@,
        MethodV::GET => "GET"@,
        MethodV::POST => "POST"@,
        MethodV::PUT => "PUT"@,
        MethodV::DELETE => "DELETE"@,
        MethodV::TRACE => "TRACE"@,
        MethodV::CONNECT => "CONNECT"@,
        MethodV::EXTENSION(t) => t,
    }
}

/// What parsing a method token returns: the matching standard variant on an
/// exact, case-sensitive match; otherwise the token itself as an extension
/// when it is all ASCII alphabetic; otherwise a failure naming the token.
pub open spec fn spec_parse_method(s: Seq<char>) -> Result<MethodV, ParseErrorV> {
    if s == "OPTIONS"@ {
        Ok(MethodV::OPTIONS)
    } else if s == "GET"@ {
        Ok(MethodV::GET)
    } else if s == "POST"@ {
        Ok(MethodV::POST)
    } else if s == "PUT"@ {
        Ok(MethodV::PUT)
    } else if s == "DELETE"@ {
        Ok(MethodV::DELETE)
    } else if s == "TRACE"@ {
        Ok(MethodV::TRACE)
    } else if s == "CONNECT"@ {
        Ok(MethodV::CONNECT)
    } else if all_alpha(s) {
        Ok(MethodV::EXTENSION(s))
    } else {
        Err(ParseErrorV::InvalidMethod(s))
    }
}

/// Tests whether a token may stand as an extension method: every character
/// ASCII alphabetic.
pub fn is_valid_extension_method(content: &str) -> (r: bool)
    ensures
        r == all_alpha(content@),
{
    all_alpha_str(content)
}

/// Parses a method token, as [`spec_parse_method`] states.
pub fn parse_method_from_wire(content: &str) -> (r: Result<Method, ParseError>)
    ensures
        res_view(r) == spec_parse_method(content@),
{
    if str_eq(content, "OPTIONS") {
        Ok(Method::OPTIONS)
    } else if str_eq(content, "GET") {
        Ok(Method::GET)
    } else if str_eq(content, "POST") {
        Ok(Method::POST)
    } else if str_eq(content, "PUT") {
        Ok(Method::PUT)
    } else if str_eq(content, "DELETE") {
        Ok(Method::DELETE)
    } else if str_eq(content, "TRACE") {
        Ok(Method::TRACE)
    } else if str_eq(content, "CONNECT") {
        Ok(Method::CONNECT)
    } else if is_valid_extension_method(content) {
        Ok(Method::EXTENSION(content.to_owned()))
    } else {
        Err(ParseError::InvalidMethod(content.to_owned()))
    }
}

impl Method {
    /// Writes the method's token: the canonical token of a standard method,
    /// the wrapped token of an extension, verbatim.
    pub fn render(&self) -> (r: String)
        ensures
            r@ == spec_method_token(self@),
    {
        match self {
            Method::OPTIONS => String::from_str("OPTIONS"),
            Method::GET => String::from_str("GET"),
            Method::POST => String::from_str("POST"),
            Method::PUT => String::from_str("PUT"),
            Method::DELETE => String::from_str("DELETE"),
            Method::TRACE => String::from_str("TRACE"),
            Method::CONNECT => String::from_str("CONNECT"),
            Method::EXTENSION(t) => t.clone(),
        }
    }
}

/// Law: parsing never invents a token. Whatever method a token parses to,
/// rendering that method writes the token back, for every token that parses.
pub proof fn lemma_method_parse_render_round_trip(s: Seq<char>, m: MethodV)
    requires
        spec_parse_method(s) == Ok::<MethodV, ParseErrorV>(m),
    ensures
        spec_method_token(m) == s,
{
}

} // verus!

