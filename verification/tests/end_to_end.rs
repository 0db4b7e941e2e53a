//! End-to-end tests of `parse_http_request` on whole buffered requests.

use http_request::{parse_http_request, read_body, Method, ParseError};

#[test]
fn post_with_declared_body() {
    let input = b"POST /submit HTTP/1.1\r\nHost: a.com\r\nContent-Length: 5\r\n\r\nhello";
    let req = parse_http_request(input).unwrap();
    assert!(matches!(req.request_line.method, Method::POST));
    assert_eq!(req.request_line.uri, "/submit");
    assert_eq!(req.request_line.v_major, 1);
    assert_eq!(req.request_line.v_minor, 1);
    let host = req.request_headers.host.unwrap();
    assert_eq!(host.hostname, "a.com");
    assert_eq!(host.port, 80);
    assert_eq!(req.entity_headers.content_length, Some(5));
    assert_eq!(req.body.as_deref(), Some("hello"));
}

#[test]
fn zero_content_length_means_no_body() {
    let input = b"GET / HTTP/1.1\r\nContent-Length: 0\r\n\r\n";
    let req = parse_http_request(input).unwrap();
    assert!(req.body.is_none());
}

#[test]
fn no_content_length_means_no_body_even_with_trailing_bytes() {
    let input = b"GET / HTTP/1.1\r\nHost: h\r\n\r\nleftover";
    let req = parse_http_request(input).unwrap();
    assert!(req.body.is_none());
}

#[test]
fn short_body_is_accepted_as_is() {
    let input = b"GET / HTTP/1.1\r\nContent-Length: 100\r\n\r\nonly this";
    let req = parse_http_request(input).unwrap();
    assert_eq!(req.body.as_deref(), Some("only this"));
}

#[test]
fn body_is_cut_at_the_declared_length() {
    let input = b"GET / HTTP/1.1\r\nContent-Length: 4\r\n\r\nabcdefgh";
    let req = parse_http_request(input).unwrap();
    assert_eq!(req.body.as_deref(), Some("abcd"));
}

#[test]
fn malformed_content_length_aborts_the_whole_parse() {
    let input = b"GET / HTTP/1.1\r\nContent-Length: abc\r\n\r\nhello";
    match parse_http_request(input).unwrap_err() {
        ParseError::InvalidContentLength(v) => assert_eq!(v, "abc"),
        other => panic!("expected InvalidContentLength, got {:?}", other),
    }
}

#[test]
fn empty_input_is_an_unexpected_end() {
    let e = parse_http_request(b"").unwrap_err();
    assert!(matches!(e, ParseError::UnexpectedEof));
}

#[test]
fn blank_first_line_is_an_unexpected_end() {
    let e = parse_http_request(b"\r\nGET / HTTP/1.1\r\n\r\n").unwrap_err();
    assert!(matches!(e, ParseError::UnexpectedEof));
}

#[test]
fn malformed_request_line_aborts() {
    let e = parse_http_request(b"GET /\r\n\r\n").unwrap_err();
    assert!(matches!(e, ParseError::MalformedRequestLine));
}

#[test]
fn header_without_colon_aborts() {
    let e = parse_http_request(b"GET / HTTP/1.1\r\nNoColonHere\r\n\r\n").unwrap_err();
    assert!(matches!(e, ParseError::MalformedHeader));
}

#[test]
fn invalid_utf8_in_a_header_line_is_a_read_failure() {
    let input = [
        b"GET / HTTP/1.1\r\nX-A: ".as_slice(),
        &[0xff, 0xfe],
        b"\r\n\r\n",
    ]
    .concat();
    let e = parse_http_request(&input).unwrap_err();
    assert!(matches!(e, ParseError::IoError));
}

#[test]
fn utf8_header_value_survives_decoding() {
    let input = "GET / HTTP/1.1\r\nX-Name: Zo\u{eb}\r\n\r\n".as_bytes();
    let req = parse_http_request(input).unwrap();
    assert_eq!(req.entity_headers.extensions[0].0, "X-Name");
    assert_eq!(req.entity_headers.extensions[0].1, "Zo\u{eb}");
}

#[test]
fn invalid_utf8_in_the_body_is_replaced_not_rejected() {
    let input = [
        b"GET / HTTP/1.1\r\nContent-Length: 3\r\n\r\na".as_slice(),
        &[0xff],
        b"b",
    ]
    .concat();
    let req = parse_http_request(&input).unwrap();
    assert_eq!(req.body.as_deref(), Some("a\u{fffd}b"));
}

#[test]
fn headers_without_final_blank_line_still_finish_at_stream_end() {
    let input = b"GET / HTTP/1.1\r\nHost: h:81\r\n";
    let req = parse_http_request(input).unwrap();
    let host = req.request_headers.host.unwrap();
    assert_eq!(host.hostname, "h");
    assert_eq!(host.port, 81);
    assert!(req.body.is_none());
}

#[test]
fn bare_newlines_without_carriage_returns_work_too() {
    let input = b"PUT /x HTTP/1.0\nContent-Length: 2\n\nok";
    let req = parse_http_request(input).unwrap();
    assert!(matches!(req.request_line.method, Method::PUT));
    assert_eq!(req.body.as_deref(), Some("ok"));
}

#[test]
fn headers_of_all_tables_are_classified_end_to_end() {
    let input = b"GET /p HTTP/1.1\r\nAccept: */*\r\nConnection: close\r\nContent-Type: text/plain\r\nX-Trace: 1\r\nUser-Agent: demo\r\n\r\n";
    let req = parse_http_request(input).unwrap();
    assert_eq!(req.request_headers.accept.as_deref(), Some("*/*"));
    assert_eq!(req.request_headers.user_agent.as_deref(), Some("demo"));
    assert_eq!(req.general_headers.connection.as_deref(), Some("close"));
    assert_eq!(req.entity_headers.content_type.as_deref(), Some("text/plain"));
    assert_eq!(req.entity_headers.extensions.len(), 1);
    assert_eq!(req.entity_headers.extensions[0].0, "X-Trace");
    assert_eq!(req.entity_headers.extensions[0].1, "1");
}

#[test]
fn repeated_host_header_keeps_the_last_one() {
    let input = b"GET / HTTP/1.1\r\nHost: one:1\r\nHost: two:2\r\n\r\n";
    let req = parse_http_request(input).unwrap();
    let host = req.request_headers.host.unwrap();
    assert_eq!(host.hostname, "two");
    assert_eq!(host.port, 2);
}

#[test]
fn malformed_host_header_aborts_the_whole_parse() {
    let e = parse_http_request(b"GET / HTTP/1.1\r\nHost: a:b:c\r\n\r\n").unwrap_err();
    assert!(matches!(e, ParseError::MalformedHost));
    let e = parse_http_request(b"GET / HTTP/1.1\r\nHost: a:x\r\n\r\n").unwrap_err();
    match e {
        ParseError::InvalidPort(seg) => assert_eq!(seg, "x"),
        other => panic!("expected InvalidPort, got {:?}", other),
    }
}

#[test]
fn invalid_method_aborts_with_the_token() {
    match parse_http_request(b"GE=T / HTTP/1.1\r\n\r\n").unwrap_err() {
        ParseError::InvalidMethod(t) => assert_eq!(t, "GE=T"),
        other => panic!("expected InvalidMethod, got {:?}", other),
    }
}

#[test]
fn extension_method_goes_through_end_to_end() {
    let req = parse_http_request(b"PATCH /r HTTP/1.1\r\n\r\n").unwrap();
    match req.request_line.method {
        Method::EXTENSION(t) => assert_eq!(t, "PATCH"),
        other => panic!("expected extension, got {:?}", other),
    }
}

#[test]
fn malformed_version_aborts() {
    let e = parse_http_request(b"GET / HTTP/1\r\n\r\n").unwrap_err();
    assert!(matches!(e, ParseError::MalformedVersion));
}

#[test]
fn header_whitespace_is_trimmed() {
    let input = b"GET / HTTP/1.1\r\n   Accept  :   text/html   \r\n\r\n";
    let req = parse_http_request(input).unwrap();
    assert_eq!(req.request_headers.accept.as_deref(), Some("text/html"));
}

#[test]
fn header_value_may_contain_colons() {
    let input = b"GET / HTTP/1.1\r\nX-Time: 12:34:56\r\n\r\n";
    let req = parse_http_request(input).unwrap();
    assert_eq!(req.entity_headers.extensions[0].1, "12:34:56");
}

#[test]
fn error_messages_name_the_offending_token() {
    let e = parse_http_request(b"GET / HTTP/1.1\r\nContent-Length: abc\r\n\r\n").unwrap_err();
    assert_eq!(e.message(), "failed to parse content length: abc");
    let e = parse_http_request(b"GE=T / HTTP/1.1\r\n\r\n").unwrap_err();
    assert_eq!(e.message(), "invalid extension method: GE=T");
    let e = parse_http_request(b"").unwrap_err();
    assert_eq!(e.message(), "stream ended before a request line");
}

#[test]
fn read_body_is_bounded_by_the_declared_length_and_the_stream() {
    assert_eq!(read_body(b"abcdef", 4), "abcd");
    assert_eq!(read_body(b"ab", 4), "ab");
    assert_eq!(read_body(b"", 4), "");
    assert_eq!(read_body(&[0x61, 0xff, 0x62], 3), "a\u{fffd}b");
}
