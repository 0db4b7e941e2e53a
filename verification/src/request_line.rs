//! The first line of a request: method, target URI and protocol version,
//! exactly three space-separated tokens.

use vstd::prelude::*;

use crate::errors::{ParseError, ParseErrorV};
use crate::method::{parse_method_from_wire, spec_method_token, spec_parse_method, Method, MethodV};
use crate::res_view;
use crate::strutil::{
    parse_u32, spec_parse_u32, spec_split, spec_uint_string, split_char, str_eq, u32_to_string,
};

verus! {

/// A parsed request line. The URI is kept as the opaque token it arrived as:
/// no normalization and no percent-decoding.
#[derive(Debug)]
pub struct RequestLine {
    pub method: Method,
    pub uri: String,
    pub v_major: u32,
    pub v_minor: u32,
}

/// The mathematical image of a [`RequestLine`].
pub struct RequestLineV {
    pub method: MethodV,
    pub uri: Seq<char>,
    pub v_major: u32,
    pub v_minor: u32,
}

impl View for RequestLine {
    type V = RequestLineV;

    open spec fn view(&self) -> RequestLineV {
        RequestLineV {
            method: self.method@,
            uri: self.uri@,
            v_major: self.v_major,
            v_minor: self.v_minor,
        }
    }
}

/// What parsing a version token returns: the token must split on `/` into
/// exactly `HTTP` and `<major>.<minor>`, each version number a `u32`; any
/// deviation is a malformed version.
pub open spec fn spec_parse_version(s: Seq<char>) -> Result<(u32, u32), ParseErrorV> {
    let parts = spec_split(s, '/');
    if parts.len() != 2 {
        Err(ParseErrorV::MalformedVersion)
    } else if parts[0] != "HTTP"@ {
        Err(ParseErrorV::MalformedVersion)
    } else {
        let nums = spec_split(parts[1], '.');
        if nums.len() != 2 {
            Err(ParseErrorV::MalformedVersion)
        } else {
            match (spec_parse_u32(nums[0]), spec_parse_u32(nums[1])) {
                (Some(major), Some(minor)) => Ok((major, minor)),
                _ => Err(ParseErrorV::MalformedVersion),
            }
        }
    }
}

/// What parsing a request line returns: exactly three space-separated tokens,
/// the first a method, the second the URI kept verbatim, the third a version
/// token; a wrong token count is a malformed request line, and a bad method
/// or version token fails as its own parser states.
pub open spec fn spec_parse_request_line(line: Seq<char>) -> Result<RequestLineV, ParseErrorV> {
    let parts = spec_split(line, ' ');
    if parts.len() != 3 {
        Err(ParseErrorV::MalformedRequestLine)
    } else {
        match spec_parse_method(parts[0]) {
            Err(e) => Err(e),
            Ok(method) => match spec_parse_version(parts[2]) {
                Err(e) => Err(e),
                Ok((major, minor)) => Ok(
                    RequestLineV { method, uri: parts[1], v_major: major, v_minor: minor },
                ),
            },
        }
    }
}

/// Parses the `HTTP/<major>.<minor>` token, as [`spec_parse_version`] states.
pub fn parse_version_numbers(content: &str) -> (r: Result<(u32, u32), ParseError>)
    ensures
        ({
            let s = spec_parse_version(content@);
            match r {
                Ok(v) => s == Ok::<(u32, u32), ParseErrorV>(v),
                Err(e) => s == Err::<(u32, u32), ParseErrorV>(e@),
            }
        }),
{
    let parts = split_char(content, '/');
    proof {
        assert(parts@.len() == parts.deep_view().len());
    }
    if parts.len() != 2 {
        return Err(ParseError::MalformedVersion);
    }
    proof {
        assert(parts[0 as int]@ == parts.deep_view()[0]);
        assert(parts[1 as int]@ == parts.deep_view()[1]);
    }
    if !str_eq(parts[0].as_str(), "HTTP") {
        return Err(ParseError::MalformedVersion);
    }
    let nums = split_char(parts[1].as_str(), '.');
    proof {
        assert(nums@.len() == nums.deep_view().len());
    }
    if nums.len() != 2 {
        return Err(ParseError::MalformedVersion);
    }
    proof {
        assert(nums[0 as int]@ == nums.deep_view()[0]);
        assert(nums[1 as int]@ == nums.deep_view()[1]);
    }
    let major = match parse_u32(nums[0].as_str()) {
        Some(v) => v,
        None => {
            return Err(ParseError::MalformedVersion);
        },
    };
    let minor = match parse_u32(nums[1].as_str()) {
        Some(v) => v,
        None => {
            return Err(ParseError::MalformedVersion);
        },
    };
    Ok((major, minor))
}

/// Parses a whole request line, as [`spec_parse_request_line`] states. The
/// caller strips the trailing line break before the call.
pub fn parse_request_line(value: &str) -> (r: Result<RequestLine, ParseError>)
    ensures
        res_view(r) == spec_parse_request_line(value@),
{
    let parts = split_char(value, ' ');
    proof {
        assert(parts@.len() == parts.deep_view().len());
    }
    if parts.len() != 3 {
        return Err(ParseError::MalformedRequestLine);
    }
    proof {
        assert(parts[0 as int]@ == parts.deep_view()[0]);
        assert(parts[1 as int]@ == parts.deep_view()[1]);
        assert(parts[2 as int]@ == parts.deep_view()[2]);
    }
    let method = match parse_method_from_wire(parts[0].as_str()) {
        Ok(m) => m,
        Err(e) => {
            return Err(e);
        },
    };
    let uri = parts[1].clone();
    match parse_version_numbers(parts[2].as_str()) {
        Ok((major, minor)) => Ok(RequestLine { method, uri, v_major: major, v_minor: minor }),
        Err(e) => Err(e),
    }
}

impl RequestLine {
    /// Writes the line back as one string: method token, version, then URI.
    pub fn render(&self) -> (r: String)
        ensures
            r@ == spec_method_token(self.method@) + " HTTP/"@ + spec_uint_string(
                self.v_major as nat,
            ) + "."@ + spec_uint_string(self.v_minor as nat) + " "@ + self.uri@,
    {
        let mut out = self.method.render();
        out.append(" HTTP/");
        let major = u32_to_string(self.v_major);
        out.append(major.as_str());
        out.append(".");
        let minor = u32_to_string(self.v_minor);
        out.append(minor.as_str());
        out.append(" ");
        out.append(self.uri.as_str());
        out
    }
}

} // verus!
