//! Tests for the request line, the header line splitter, the classification
//! tables and the header containers.

use http_request::{insert_header, parse_request_line, parse_version_numbers, split_header};
use http_request::{
    EntityHeader, EntityHeaders, GeneralHeader, GeneralHeaders, Method, ParseError, RequestHeader,
    RequestHeaders, ResponseHeader, ResponseHeaders,
};

#[test]
fn request_line_with_three_tokens_parses() {
    let rl = parse_request_line("GET /index.html HTTP/1.1").unwrap();
    assert!(matches!(rl.method, Method::GET));
    assert_eq!(rl.uri, "/index.html");
    assert_eq!(rl.v_major, 1);
    assert_eq!(rl.v_minor, 1);
}

#[test]
fn request_line_with_two_tokens_is_malformed() {
    let e = parse_request_line("GET /").unwrap_err();
    assert!(matches!(e, ParseError::MalformedRequestLine));
}

#[test]
fn request_line_with_four_tokens_is_malformed() {
    let e = parse_request_line("GET / HTTP/1.1 extra").unwrap_err();
    assert!(matches!(e, ParseError::MalformedRequestLine));
}

#[test]
fn request_line_uri_is_kept_verbatim() {
    let rl = parse_request_line("GET /a%20b?q=1:2 HTTP/1.0").unwrap();
    assert_eq!(rl.uri, "/a%20b?q=1:2");
    assert_eq!(rl.v_minor, 0);
}

#[test]
fn request_line_render() {
    let rl = parse_request_line("GET /index.html HTTP/1.1").unwrap();
    assert_eq!(rl.render(), "GET HTTP/1.1 /index.html");
}

#[test]
fn version_numbers_parse() {
    assert_eq!(parse_version_numbers("HTTP/1.1").unwrap(), (1, 1));
    assert_eq!(parse_version_numbers("HTTP/2.0").unwrap(), (2, 0));
}

#[test]
fn version_without_slash_is_malformed() {
    assert!(matches!(parse_version_numbers("HTTP1.1").unwrap_err(), ParseError::MalformedVersion));
}

#[test]
fn version_with_wrong_protocol_name_is_malformed() {
    assert!(matches!(parse_version_numbers("FTP/1.1").unwrap_err(), ParseError::MalformedVersion));
}

#[test]
fn version_without_dot_is_malformed() {
    assert!(matches!(parse_version_numbers("HTTP/11").unwrap_err(), ParseError::MalformedVersion));
}

#[test]
fn version_with_two_dots_is_malformed() {
    assert!(matches!(
        parse_version_numbers("HTTP/1.1.2").unwrap_err(),
        ParseError::MalformedVersion
    ));
}

#[test]
fn version_with_non_numeric_part_is_malformed() {
    assert!(matches!(parse_version_numbers("HTTP/a.1").unwrap_err(), ParseError::MalformedVersion));
    assert!(matches!(parse_version_numbers("HTTP/1.b").unwrap_err(), ParseError::MalformedVersion));
}

#[test]
fn split_header_splits_on_first_colon_and_trims() {
    let (name, value) = split_header("Host: example.com:8080").unwrap();
    assert_eq!(name, "Host");
    assert_eq!(value, "example.com:8080");
    let (name, value) = split_header("  X-A  :  b c  ").unwrap();
    assert_eq!(name, "X-A");
    assert_eq!(value, "b c");
}

#[test]
fn split_header_without_colon_is_malformed() {
    assert!(matches!(split_header("Host example.com").unwrap_err(), ParseError::MalformedHeader));
}

#[test]
fn header_line_with_host_fills_the_request_container() {
    let mut rh = RequestHeaders::new();
    let mut gh = GeneralHeaders::new();
    let mut eh = EntityHeaders::new();
    let (name, value) = split_header("Host: example.com:8080").unwrap();
    insert_header(&mut rh, &mut gh, &mut eh, name, value).unwrap();
    let host = rh.host.unwrap();
    assert_eq!(host.hostname, "example.com");
    assert_eq!(host.port, 8080);
}

#[test]
fn header_line_with_unknown_name_lands_in_the_extension_bucket() {
    let mut rh = RequestHeaders::new();
    let mut gh = GeneralHeaders::new();
    let mut eh = EntityHeaders::new();
    let (name, value) = split_header("X-Custom-Thing: value").unwrap();
    insert_header(&mut rh, &mut gh, &mut eh, name, value).unwrap();
    assert_eq!(eh.extensions.len(), 1);
    assert_eq!(eh.extensions[0].0, "X-Custom-Thing");
    assert_eq!(eh.extensions[0].1, "value");
}

#[test]
fn classification_tries_request_then_general_then_entity() {
    let mut rh = RequestHeaders::new();
    let mut gh = GeneralHeaders::new();
    let mut eh = EntityHeaders::new();
    insert_header(&mut rh, &mut gh, &mut eh, "Accept", "text/html").unwrap();
    insert_header(&mut rh, &mut gh, &mut eh, "Connection", "close").unwrap();
    insert_header(&mut rh, &mut gh, &mut eh, "Content-Type", "text/plain").unwrap();
    assert_eq!(rh.accept.as_deref(), Some("text/html"));
    assert_eq!(gh.connection.as_deref(), Some("close"));
    assert_eq!(eh.content_type.as_deref(), Some("text/plain"));
    assert!(eh.extensions.is_empty());
}

#[test]
fn repeated_header_keeps_only_the_last_value() {
    let mut rh = RequestHeaders::new();
    rh.insert(RequestHeader::UserAgent, "one").unwrap();
    rh.insert(RequestHeader::UserAgent, "two").unwrap();
    assert_eq!(rh.user_agent.as_deref(), Some("two"));
}

#[test]
fn repeated_extension_name_overwrites_without_duplicating() {
    let mut eh = EntityHeaders::new();
    eh.insert(EntityHeader::Extension(String::from("X-K")), "v1").unwrap();
    eh.insert(EntityHeader::Extension(String::from("X-K")), "v2").unwrap();
    assert_eq!(eh.extensions.len(), 1);
    assert_eq!(eh.extensions[0].1, "v2");
}

#[test]
fn distinct_extension_names_keep_their_own_entries() {
    let mut eh = EntityHeaders::new();
    eh.insert(EntityHeader::Extension(String::from("X-A")), "1").unwrap();
    eh.insert(EntityHeader::Extension(String::from("X-B")), "2").unwrap();
    eh.insert(EntityHeader::Extension(String::from("X-A")), "3").unwrap();
    assert_eq!(eh.extensions.len(), 2);
    let a = eh.extensions.iter().find(|p| p.0 == "X-A").unwrap();
    let b = eh.extensions.iter().find(|p| p.0 == "X-B").unwrap();
    assert_eq!(a.1, "3");
    assert_eq!(b.1, "2");
}

#[test]
fn content_length_value_is_parsed_as_a_number() {
    let mut eh = EntityHeaders::new();
    eh.insert(EntityHeader::ContentLength, "42").unwrap();
    assert_eq!(eh.content_length, Some(42));
}

#[test]
fn malformed_content_length_fails_and_leaves_the_container_unchanged() {
    let mut eh = EntityHeaders::new();
    match eh.insert(EntityHeader::ContentLength, "abc").unwrap_err() {
        ParseError::InvalidContentLength(v) => assert_eq!(v, "abc"),
        other => panic!("expected InvalidContentLength, got {:?}", other),
    }
    assert_eq!(eh.content_length, None);
}

#[test]
fn malformed_host_header_fails_the_insert() {
    let mut rh = RequestHeaders::new();
    let e = rh.insert(RequestHeader::Host, "a:b:c").unwrap_err();
    assert!(matches!(e, ParseError::MalformedHost));
    assert!(rh.host.is_none());
}

#[test]
fn request_table_names_round_trip() {
    let keys = [
        "Accept",
        "Accept-Charset",
        "Accept-Encoding",
        "Accept-Language",
        "Authorization",
        "Expect",
        "From",
        "Host",
        "If-Match",
        "If-Modified-Since",
        "If-None-Match",
        "If-Range",
        "If-Unmodified-Since",
        "Max-Forwards",
        "Proxy-Authorization",
        "Range",
        "Referer",
        "TE",
        "User-Agent",
    ];
    for k in keys {
        let h = RequestHeader::from(k).unwrap();
        assert_eq!(h.value(), k);
    }
    assert!(RequestHeader::from("Connection").is_none());
}

#[test]
fn general_table_names_round_trip() {
    let keys = [
        "Cache-Control",
        "Connection",
        "Date",
        "Pragma",
        "Trailer",
        "Transfer-Encoding",
        "Upgrade",
        "Via",
        "Warning",
    ];
    for k in keys {
        let h = GeneralHeader::from(k).unwrap();
        assert_eq!(h.value(), k);
    }
    assert!(GeneralHeader::from("Host").is_none());
}

#[test]
fn entity_table_names_round_trip_and_catch_all() {
    let keys = [
        "Allow",
        "Content-Encoding",
        "Content-Language",
        "Content-Length",
        "Content-Location",
        "Content-MD5",
        "Content-Range",
        "Content-Type",
        "Expires",
        "Last-Modified",
    ];
    for k in keys {
        let h = EntityHeader::from(k).unwrap();
        assert_eq!(h.value(), k);
    }
    match EntityHeader::from("X-Anything").unwrap() {
        EntityHeader::Extension(name) => assert_eq!(name, "X-Anything"),
        other => panic!("expected extension, got {:?}", other),
    }
}

#[test]
fn response_table_names_round_trip() {
    let keys = [
        "Accept-Ranges",
        "Age",
        "ETag",
        "Location",
        "Proxy-Authenticate",
        "Retry-After",
        "Server",
        "Vary",
        "WWW-Authenticate",
    ];
    for k in keys {
        let h = ResponseHeader::from(k).unwrap();
        assert_eq!(h.value(), k);
    }
    assert!(ResponseHeader::from("Host").is_none());
}

#[test]
fn response_container_inserts() {
    let mut sh = ResponseHeaders::new();
    sh.insert(ResponseHeader::Server, "demo").unwrap();
    sh.insert(ResponseHeader::Server, "demo2").unwrap();
    assert_eq!(sh.server.as_deref(), Some("demo2"));
    assert_eq!(sh.age, None);
}

#[test]
fn general_container_inserts() {
    let mut gh = GeneralHeaders::new();
    gh.insert(GeneralHeader::Date, "today").unwrap();
    assert_eq!(gh.date.as_deref(), Some("today"));
    assert_eq!(gh.via, None);
}
