//! The request orchestrator: reads the request line from a buffered byte
//! stream, consumes header lines until a blank line, classifies each into the
//! header containers, then reads exactly the declared body length.
//!
//! The input is the byte sequence a transport layer buffered from one
//! connection. Lines are delimited by `\n`, an optional `\r` before it is
//! trimmed away, and the body begins right after the blank line.

use vstd::prelude::*;
use vstd::slice::{slice_index_get, slice_subrange};
use vstd::utf8::{decode_utf8, valid_utf8};

use crate::containers::{
    spec_empty_entity_headers, spec_empty_general_headers, spec_empty_request_headers,
    spec_insert_entity_header, spec_insert_general_header, spec_insert_request_header,
    EntityHeaders, EntityHeadersV, GeneralHeaders, GeneralHeadersV, RequestHeaders,
    RequestHeadersV,
};
use crate::errors::{ParseError, ParseErrorV};
use crate::headers::{
    spec_entity_header_from, spec_general_header_from, spec_request_header_from, EntityHeader,
    GeneralHeader, RequestHeader,
};
use crate::request_line::{
    parse_request_line, spec_parse_request_line, RequestLine, RequestLineV,
};
use crate::res_view;
use crate::strutil::{spec_split_once, spec_trim, split_once_char, trim};

verus! {

/// The number of bytes before the first line feed of `b`, or all of `b` where
/// none follows.
pub open spec fn line_end(b: Seq<u8>) -> int
    decreases b.len(),
{
    if b.len() == 0 {
        0
    } else if b[0] == 10 {
        0
    } else {
        1 + line_end(b.drop_first())
    }
}

/// The bytes of the first line of `b`, its line feed excluded.
pub open spec fn spec_take_line(b: Seq<u8>) -> Seq<u8> {
    b.take(line_end(b))
}

/// The bytes after the first line of `b`: what follows its line feed, or
/// nothing where the stream ended without one.
pub open spec fn spec_drop_line(b: Seq<u8>) -> Seq<u8> {
    if line_end(b) == b.len() {
        Seq::empty()
    } else {
        b.skip(line_end(b) + 1)
    }
}

/// Where the first line ends: at the first line feed, or at the end of `b`.
pub proof fn lemma_line_end_bounds(b: Seq<u8>)
    ensures
        0 <= line_end(b) <= b.len(),
        line_end(b) < b.len() ==> b[line_end(b)] == 10,
        forall|k: int| 0 <= k < line_end(b) ==> b[k] != 10,
    decreases b.len(),
{
    if b.len() > 0 && b[0] != 10 {
        let t = b.drop_first();
        lemma_line_end_bounds(t);
        assert forall|k: int| 0 <= k < line_end(b) implies b[k] != 10 by {
            if k > 0 {
                assert(b[k] == t[k - 1]);
            }
        }
    }
}

proof fn lemma_line_end_at(b: Seq<u8>, e: int)
    requires
        0 <= e <= b.len(),
        forall|k: int| 0 <= k < e ==> b[k] != 10,
        e == b.len() || b[e] == 10,
    ensures
        line_end(b) == e,
    decreases e,
{
    if e == 0 {
    } else {
        let t = b.drop_first();
        assert(forall|k: int| 0 <= k < e - 1 ==> t[k] != 10);
        lemma_line_end_at(t, e - 1);
    }
}

/// Finds where the line that starts at `pos` ends: the index of its line
/// feed, or the end of the input.
fn find_line_end(input: &[u8], pos: usize) -> (end: usize)
    requires
        pos <= input@.len(),
    ensures
        pos <= end <= input@.len(),
        end - pos == line_end(input@.skip(pos as int)),
{
    let n = input.len();
    let ghost b = input@.skip(pos as int);
    let mut i: usize = pos;
    while i < n
        invariant
            pos <= i <= n,
            n == input@.len(),
            b == input@.skip(pos as int),
            forall|k: int| pos <= k < i ==> input@[k] != 10,
        decreases n - i,
    {
        if *slice_index_get(input, i) == 10u8 {
            proof {
                assert forall|k: int| 0 <= k < i - pos implies b[k] != 10 by {
                    assert(b[k] == input@[k + pos]);
                }
                assert(b[i - pos] == input@[i as int]);
                lemma_line_end_at(b, i - pos);
            }
            return i;
        }
        i += 1;
    }
    proof {
        assert forall|k: int| 0 <= k < n - pos implies b[k] != 10 by {
            assert(b[k] == input@[k + pos]);
        }
        lemma_line_end_at(b, n - pos);
    }
    n
}

/// Relies on `core::str::from_utf8`: it succeeds exactly on valid UTF-8 and
/// returns the string those bytes encode.
#[verifier::external_body]
fn bytes_to_str(v: &[u8]) -> (r: Option<&str>)
    ensures
        r is Some <==> valid_utf8(v@),
        r matches Some(s) ==> s@ == decode_utf8(v@),
{
    match core::str::from_utf8(v) {
        Ok(s) => Some(s),
        Err(_) => None,
    }
}

/// What decoding bytes with lossy substitution yields. The replacement of
/// invalid sequences follows `String::from_utf8_lossy`; the result depends on
/// the bytes alone.
pub uninterp spec fn lossy_decode(b: Seq<u8>) -> Seq<char>;

/// Relies on `String::from_utf8_lossy`: the result is a function of the bytes
/// alone, and bytes that are valid UTF-8 decode unchanged.
#[verifier::external_body]
fn bytes_to_string_lossy(v: &[u8]) -> (r: String)
    ensures
        r@ == lossy_decode(v@),
        valid_utf8(v@) ==> r@ == decode_utf8(v@),
{
    String::from_utf8_lossy(v).into_owned()
}

/// What splitting a header line returns: the name before the first `:` and
/// the value after it, both trimmed of surrounding whitespace; a line without
/// `:` is malformed. The value may itself contain colons.
pub open spec fn spec_split_header(line: Seq<char>) -> Result<
    (Seq<char>, Seq<char>),
    ParseErrorV,
> {
    match spec_split_once(line, ':') {
        None => Err(ParseErrorV::MalformedHeader),
        Some((name, value)) => Ok((spec_trim(name), spec_trim(value))),
    }
}

/// Splits a header line at its first `:`, as [`spec_split_header`] states.
pub fn split_header<'a>(line: &'a str) -> (r: Result<(&'a str, &'a str), ParseError>)
    ensures
        match r {
            Ok(p) => spec_split_header(line@) == Ok::<(Seq<char>, Seq<char>), ParseErrorV>(
                (p.0@, p.1@),
            ),
            Err(e) => spec_split_header(line@) == Err::<(Seq<char>, Seq<char>), ParseErrorV>(e@),
        },
{
    match split_once_char(line, ':') {
        None => Err(ParseError::MalformedHeader),
        Some((name, value)) => Ok((trim(name), trim(value))),
    }
}

/// What classifying and storing one header does: the request table is tried
/// first, then the general table, then the entity table, whose extension
/// variant always matches; the response table is never consulted for a
/// request. The one container that recognizes the name takes the value; a
/// failing typed value (a malformed host, a malformed content length) is the
/// failure of the whole step, and every container is unchanged.
pub open spec fn spec_insert_header(
    rh: RequestHeadersV,
    gh: GeneralHeadersV,
    eh: EntityHeadersV,
    name: Seq<char>,
    value: Seq<char>,
) -> Result<(RequestHeadersV, GeneralHeadersV, EntityHeadersV), ParseErrorV> {
    match spec_request_header_from(name) {
        Some(key) => match spec_insert_request_header(rh, key, value) {
            Ok(rh2) => Ok((rh2, gh, eh)),
            Err(e) => Err(e),
        },
        None => match spec_general_header_from(name) {
            Some(key) => Ok((rh, spec_insert_general_header(gh, key, value), eh)),
            None => match spec_insert_entity_header(eh, spec_entity_header_from(name), value) {
                Ok(eh2) => Ok((rh, gh, eh2)),
                Err(e) => Err(e),
            },
        },
    }
}

/// Classifies one header by name and stores its value in the matching
/// container, as [`spec_insert_header`] states.
pub fn insert_header(
    rh: &mut RequestHeaders,
    gh: &mut GeneralHeaders,
    eh: &mut EntityHeaders,
    name: &str,
    value: &str,
) -> (r: Result<(), ParseError>)
    requires
        old(eh).wf(),
    ensures
        final(eh).wf(),
        match r {
            Ok(_) => spec_insert_header(old(rh)@, old(gh)@, old(eh)@, name@, value@) == Ok::<
                (RequestHeadersV, GeneralHeadersV, EntityHeadersV),
                ParseErrorV,
            >((final(rh)@, final(gh)@, final(eh)@)),
            Err(e) => spec_insert_header(old(rh)@, old(gh)@, old(eh)@, name@, value@) == Err::<
                (RequestHeadersV, GeneralHeadersV, EntityHeadersV),
                ParseErrorV,
            >(e@) && final(rh)@ == old(rh)@ && final(gh)@ == old(gh)@ && final(eh)@ == old(eh)@,
        },
{
    if let Some(key) = RequestHeader::from(name) {
        rh.insert(key, value)
    } else if let Some(key) = GeneralHeader::from(name) {
        gh.insert(key, value)
    } else {
        match EntityHeader::from(name) {
            Some(key) => eh.insert(key, value),
            None => Err(ParseError::MalformedHeader),
        }
    }
}

/// Law: a repeated header name keeps only its last value, whatever table it
/// classifies to. Where storing `(name, v1)` succeeded, storing `(name, v2)`
/// after it leaves all three containers exactly as one store of `(name, v2)`
/// leaves them: nothing of `v1` remains, no error arises, nothing duplicates.
pub proof fn lemma_insert_header_last_wins(
    rh: RequestHeadersV,
    gh: GeneralHeadersV,
    eh: EntityHeadersV,
    rh1: RequestHeadersV,
    gh1: GeneralHeadersV,
    eh1: EntityHeadersV,
    name: Seq<char>,
    v1: Seq<char>,
    v2: Seq<char>,
)
    requires
        spec_insert_header(rh, gh, eh, name, v1) == Ok::<
            (RequestHeadersV, GeneralHeadersV, EntityHeadersV),
            ParseErrorV,
        >((rh1, gh1, eh1)),
    ensures
        spec_insert_header(rh1, gh1, eh1, name, v2) == spec_insert_header(rh, gh, eh, name, v2),
{
    match spec_request_header_from(name) {
        Some(key) => {
            crate::containers::lemma_request_insert_last_wins(rh, rh1, key, v1, v2);
        },
        None => match spec_general_header_from(name) {
            Some(key) => {
                crate::containers::lemma_general_insert_last_wins(gh, key, v1, v2);
            },
            None => {
                crate::containers::lemma_entity_insert_last_wins(
                    eh,
                    eh1,
                    spec_entity_header_from(name),
                    v1,
                    v2,
                );
            },
        },
    }
}

/// A fully parsed request: the request line, the classified headers, and the
/// body where a content length declared one. Built whole by one parse call,
/// owned by its caller, immutable thereafter.
#[derive(Debug)]
pub struct HttpRequest {
    pub request_line: RequestLine,
    pub request_headers: RequestHeaders,
    pub general_headers: GeneralHeaders,
    pub entity_headers: EntityHeaders,
    pub body: Option<String>,
}

/// The mathematical image of an [`HttpRequest`].
pub struct HttpRequestV {
    pub request_line: RequestLineV,
    pub request_headers: RequestHeadersV,
    pub general_headers: GeneralHeadersV,
    pub entity_headers: EntityHeadersV,
    pub body: Option<Seq<char>>,
}

impl View for HttpRequest {
    type V = HttpRequestV;

    open spec fn view(&self) -> HttpRequestV {
        HttpRequestV {
            request_line: self.request_line@,
            request_headers: self.request_headers@,
            general_headers: self.general_headers@,
            entity_headers: self.entity_headers@,
            body: crate::opt_view(self.body),
        }
    }
}

/// What consuming header lines does, starting from the containers as they
/// stand: one line at a time, a line that is blank after trimming (or the end
/// of the stream) ends the headers, and what follows the blank line is handed
/// back as the body's bytes. A line that is not valid UTF-8 fails the read,
/// as the stream reader it models would. Any other line is split on its first
/// `:` and stored as [`spec_insert_header`] states; the first failure aborts.
pub open spec fn spec_parse_headers(
    b: Seq<u8>,
    rh: RequestHeadersV,
    gh: GeneralHeadersV,
    eh: EntityHeadersV,
) -> Result<(RequestHeadersV, GeneralHeadersV, EntityHeadersV, Seq<u8>), ParseErrorV>
    decreases b.len(),
    via spec_parse_headers_decreases
{
    let lb = spec_take_line(b);
    if !valid_utf8(lb) {
        Err(ParseErrorV::IoError)
    } else {
        let line = spec_trim(decode_utf8(lb));
        if line.len() == 0 {
            Ok((rh, gh, eh, spec_drop_line(b)))
        } else {
            match spec_split_header(line) {
                Err(e) => Err(e),
                Ok((name, value)) => match spec_insert_header(rh, gh, eh, name, value) {
                    Err(e) => Err(e),
                    Ok((rh2, gh2, eh2)) => spec_parse_headers(spec_drop_line(b), rh2, gh2, eh2),
                },
            }
        }
    }
}

#[via_fn]
proof fn spec_parse_headers_decreases(
    b: Seq<u8>,
    rh: RequestHeadersV,
    gh: GeneralHeadersV,
    eh: EntityHeadersV,
) {
    lemma_line_end_bounds(b);
    if b.len() == 0 {
        assert(spec_take_line(b) =~= Seq::<u8>::empty());
        assert(decode_utf8(Seq::<u8>::empty()) =~= Seq::<char>::empty());
    }
}

/// What the body is once the blank line is behind: exactly the declared
/// number of bytes from the remaining stream, or all of them where the stream
/// ends short, decoded with lossy substitution.
pub open spec fn spec_read_body(rest: Seq<u8>, n: usize) -> Seq<char> {
    if n <= rest.len() {
        lossy_decode(rest.take(n as int))
    } else {
        lossy_decode(rest)
    }
}

/// Reads the body: exactly `content_length` bytes from the rest of the
/// stream, or all of them where the stream ends short, decoded with lossy
/// substitution, as [`spec_read_body`] states.
pub fn read_body(rest: &[u8], content_length: usize) -> (r: String)
    ensures
        r@ == spec_read_body(rest@, content_length),
{
    let avail = rest.len();
    let take_n = if content_length <= avail {
        content_length
    } else {
        avail
    };
    proof {
        assert(rest@.subrange(0, take_n as int) =~= if content_length <= rest@.len() {
            rest@.take(content_length as int)
        } else {
            rest@
        });
    }
    let body_bytes = slice_subrange(rest, 0, take_n);
    bytes_to_string_lossy(body_bytes)
}

/// The body the entity headers call for, the blank line behind: absent where
/// no content length was declared or it is zero, else the declared number of
/// bytes read from the rest of the stream.
pub open spec fn spec_body_of(eh: EntityHeadersV, rest: Seq<u8>) -> Option<Seq<char>> {
    match eh.content_length {
        Some(n) => if n == 0 {
            None
        } else {
            Some(spec_read_body(rest, n))
        },
        None => None,
    }
}

/// The request a finished header pass assembles: the request line, the three
/// containers, and the body the entity headers call for; or the failure the
/// header pass ended in.
pub open spec fn spec_finish_request(
    rl: RequestLineV,
    t: Result<(RequestHeadersV, GeneralHeadersV, EntityHeadersV, Seq<u8>), ParseErrorV>,
) -> Result<HttpRequestV, ParseErrorV> {
    match t {
        Err(e) => Err(e),
        Ok((rh, gh, eh, rest)) => Ok(
            HttpRequestV {
                request_line: rl,
                request_headers: rh,
                general_headers: gh,
                entity_headers: eh,
                body: spec_body_of(eh, rest),
            },
        ),
    }
}

/// What parsing a whole buffered request returns, state by state and with no
/// backtracking: the first line, trimmed, must be present and parse as a
/// request line; header lines follow until a blank line; then, where the
/// entity headers declare a content length `n`, the body is the next `n`
/// bytes, lossily decoded — absent where `n` is zero or no length was
/// declared. An empty stream, or a blank first line, is an unexpected end;
/// the first failure anywhere is the result, and no partial request exists.
pub open spec fn spec_parse_http_request(input: Seq<u8>) -> Result<HttpRequestV, ParseErrorV> {
    let lb = spec_take_line(input);
    if !valid_utf8(lb) {
        Err(ParseErrorV::IoError)
    } else {
        let first = spec_trim(decode_utf8(lb));
        if first.len() == 0 {
            Err(ParseErrorV::UnexpectedEof)
        } else {
            match spec_parse_request_line(first) {
                Err(e) => Err(e),
                Ok(rl) => spec_finish_request(
                    rl,
                    spec_parse_headers(
                        spec_drop_line(input),
                        spec_empty_request_headers(),
                        spec_empty_general_headers(),
                        spec_empty_entity_headers(),
                    ),
                ),
            }
        }
    }
}

/// The position right after the first line of the bytes from `pos` on: past
/// the line feed, or the end of the input where none followed.
fn advance_past_line(input: &[u8], pos: usize, end: usize) -> (next: usize)
    requires
        pos <= end <= input@.len(),
        end - pos == line_end(input@.skip(pos as int)),
    ensures
        pos <= next <= input@.len(),
        input@.skip(next as int) == spec_drop_line(input@.skip(pos as int)),
{
    let ghost b = input@.skip(pos as int);
    proof {
        lemma_line_end_bounds(b);
    }
    if end == input.len() {
        proof {
            assert(input@.skip(input@.len() as int) =~= Seq::<u8>::empty());
            assert(line_end(b) == b.len());
        }
        end
    } else {
        proof {
            assert(line_end(b) < b.len());
            assert(input@.skip(end as int + 1) =~= b.skip(line_end(b) + 1));
        }
        end + 1
    }
}

/// Parses one buffered request, as [`spec_parse_http_request`] states: the
/// request line, then headers until a blank line, then the declared body.
/// The first malformed input aborts the parse with its typed error; only a
/// complete parse returns a request.
pub fn parse_http_request(input: &[u8]) -> (r: Result<HttpRequest, ParseError>)
    ensures
        res_view(r) == spec_parse_http_request(input@),
{
    let n = input.len();
    // Request line.
    let end = find_line_end(input, 0);
    proof {
        assert(input@.skip(0) =~= input@);
        assert(input@.subrange(0, end as int) =~= spec_take_line(input@));
    }
    let line_bytes = slice_subrange(input, 0, end);
    let line = match bytes_to_str(line_bytes) {
        Some(s) => s,
        None => {
            return Err(ParseError::IoError);
        },
    };
    let first = trim(line);
    if first.unicode_len() == 0 {
        return Err(ParseError::UnexpectedEof);
    }
    let request_line = match parse_request_line(first) {
        Ok(rl) => rl,
        Err(e) => {
            return Err(e);
        },
    };
    let mut pos = advance_past_line(input, 0, end);
    // Headers, until a blank line.
    let mut rh = RequestHeaders::new();
    let mut gh = GeneralHeaders::new();
    let mut eh = EntityHeaders::new();
    let ghost target = spec_parse_headers(
        spec_drop_line(input@),
        spec_empty_request_headers(),
        spec_empty_general_headers(),
        spec_empty_entity_headers(),
    );
    loop
        invariant_except_break
            pos <= n,
            n == input@.len(),
            eh.wf(),
            target == spec_parse_headers(input@.skip(pos as int), rh@, gh@, eh@),
            spec_parse_http_request(input@) == spec_finish_request(request_line@, target),
        ensures
            pos <= n,
            n == input@.len(),
            eh.wf(),
            target == Ok::<
                (RequestHeadersV, GeneralHeadersV, EntityHeadersV, Seq<u8>),
                ParseErrorV,
            >((rh@, gh@, eh@, input@.skip(pos as int))),
            spec_parse_http_request(input@) == spec_finish_request(request_line@, target),
        decreases n - pos,
    {
        let hend = find_line_end(input, pos);
        let ghost b = input@.skip(pos as int);
        proof {
            lemma_line_end_bounds(b);
            assert(input@.subrange(pos as int, hend as int) =~= spec_take_line(b));
        }
        let hbytes = slice_subrange(input, pos, hend);
        let hline = match bytes_to_str(hbytes) {
            Some(s) => s,
            None => {
                return Err(ParseError::IoError);
            },
        };
        let htrim = trim(hline);
        let next = advance_past_line(input, pos, hend);
        if htrim.unicode_len() == 0 {
            pos = next;
            break;
        }
        proof {
            if spec_take_line(b).len() == 0 {
                assert(decode_utf8(Seq::<u8>::empty()) =~= Seq::<char>::empty());
                assert(htrim@.len() == 0);
            }
            assert(spec_take_line(b).len() > 0);
            assert(line_end(b) > 0);
        }
        let (name, value) = match split_header(htrim) {
            Ok(p) => p,
            Err(e) => {
                return Err(e);
            },
        };
        let ghost orh = rh@;
        let ghost ogh = gh@;
        let ghost oeh = eh@;
        match insert_header(&mut rh, &mut gh, &mut eh, name, value) {
            Ok(_) => {},
            Err(e) => {
                return Err(e);
            },
        }
        proof {
            assert(spec_parse_headers(b, orh, ogh, oeh) == spec_parse_headers(
                input@.skip(next as int),
                rh@,
                gh@,
                eh@,
            ));
        }
        pos = next;
    }
    // Body, where a content length was declared.
    let rest = slice_subrange(input, pos, n);
    proof {
        assert(rest@ =~= input@.skip(pos as int));
    }
    let body = match eh.content_length {
        Some(cl) => {
            if cl == 0 {
                None
            } else {
                Some(read_body(rest, cl))
            }
        },
        None => None,
    };
    Ok(
        HttpRequest {
            request_line,
            request_headers: rh,
            general_headers: gh,
            entity_headers: eh,
            body,
        },
    )
}

} // verus!
