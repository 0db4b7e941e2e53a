//! The `Host` header value: `hostname[:port]`, with the port defaulting to 80
//! when the wire form omits it.

use vstd::prelude::*;

use crate::errors::{ParseError, ParseErrorV};
use crate::res_view;
use crate::strutil::{
    lemma_split_fields_free_of_sep, lemma_split_len_pos, lemma_split_concat, lemma_split_no_sep,
    lemma_uint_string_val, is_digit, parse_u32, spec_parse_u32, spec_split,
    spec_uint_string, split_char, spec_digits_part, u32_to_string,
};

verus! {

/// A host: a name and an effective port.
#[derive(Debug, Clone)]
pub struct Host {
    pub hostname: String,
    pub port: u32,
}

/// The mathematical image of a [`Host`].
pub struct HostV {
    pub hostname: Seq<char>,
    pub port: u32,
}

impl View for Host {
    type V = HostV;

    open spec fn view(&self) -> HostV {
        HostV { hostname: self.hostname@, port: self.port }
    }
}

/// What parsing a host wire form returns: split on `:`, at most one separator
/// allowed. No separator leaves the port at 80; with one separator the second
/// segment must read as a `u32` port, else the error names the segment; more
/// than one separator is malformed.
pub open spec fn spec_parse_host(s: Seq<char>) -> Result<HostV, ParseErrorV> {
    let parts = spec_split(s, ':');
    if parts.len() > 2 {
        Err(ParseErrorV::MalformedHost)
    } else if parts.len() == 2 {
        match spec_parse_u32(parts[1]) {
            Some(p) => Ok(HostV { hostname: parts[0], port: p }),
            None => Err(ParseErrorV::InvalidPort(parts[1])),
        }
    } else {
        Ok(HostV { hostname: parts[0], port: 80 })
    }
}

/// The wire form a host renders to: always `hostname:port`, the port included
/// even where parsing defaulted it.
pub open spec fn spec_render_host(h: HostV) -> Seq<char> {
    h.hostname + seq![':'] + spec_uint_string(h.port as nat)
}

/// Parses `hostname[:port]`, as [`spec_parse_host`] states.
pub fn parse_host_from_wire(content: &str) -> (r: Result<Host, ParseError>)
    ensures
        res_view(r) == spec_parse_host(content@),
{
    let parts = split_char(content, ':');
    proof {
        lemma_split_len_pos(content@, ':');
        assert(parts@.len() == parts.deep_view().len());
    }
    if parts.len() > 2 {
        return Err(ParseError::MalformedHost);
    }
    let hostname = parts[0].clone();
    proof {
        assert(hostname@ == parts.deep_view()[0]);
    }
    if parts.len() == 2 {
        proof {
            assert(parts[1 as int]@ == parts.deep_view()[1]);
        }
        match parse_u32(parts[1].as_str()) {
            Some(p) => Ok(Host { hostname, port: p }),
            None => Err(ParseError::InvalidPort(parts[1].clone())),
        }
    } else {
        Ok(Host { hostname, port: 80 })
    }
}

impl Host {
    /// Writes the host back to its wire form `hostname:port`.
    pub fn render(&self) -> (r: String)
        ensures
            r@ == spec_render_host(self@),
    {
        let mut out = self.hostname.clone();
        out.append(":");
        let digits = u32_to_string(self.port);
        out.append(digits.as_str());
        proof {
            reveal_strlit(":");
            assert(":"@ =~= seq![':']);
            assert(self.hostname@ + seq![':'] + spec_uint_string(self.port as nat) =~= out@);
        }
        out
    }
}

/// Law: a parsed host, rendered, parses back to the same host, the defaulted
/// port included. Parsing accepts every string `render` writes.
pub proof fn lemma_host_render_parse_round_trip(s: Seq<char>, h: HostV)
    requires
        spec_parse_host(s) == Ok::<HostV, ParseErrorV>(h),
    ensures
        spec_parse_host(spec_render_host(h)) == Ok::<HostV, ParseErrorV>(h),
{
    let parts = spec_split(s, ':');
    lemma_split_len_pos(s, ':');
    lemma_split_fields_free_of_sep(s, ':');
    assert(!h.hostname.contains(':'));
    let digits = spec_uint_string(h.port as nat);
    lemma_uint_string_val(h.port as nat);
    assert(forall|i: int| 0 <= i < digits.len() ==> #[trigger] digits[i] != ':') by {
        assert(forall|i: int| 0 <= i < digits.len() ==> is_digit(#[trigger] digits[i]));
    }
    assert(!digits.contains(':'));
    let w = spec_render_host(h);
    assert(w =~= h.hostname + seq![':'] + digits);
    lemma_split_concat(h.hostname, digits, ':');
    lemma_split_no_sep(digits, ':');
    let wparts = spec_split(w, ':');
    assert(wparts =~~= seq![h.hostname, digits]);
    assert(digits[0] != '+') by {
        assert(is_digit(digits[0]));
    }
    assert(spec_digits_part(digits) == digits);
    assert(h.port as nat <= u32::MAX as nat);
    assert(spec_parse_u32(digits) == Some(h.port));
    assert(spec_parse_host(w) == Ok::<HostV, ParseErrorV>(HostV { hostname: h.hostname, port: h.port }));
    assert(HostV { hostname: h.hostname, port: h.port } == h);
}

} // verus!
