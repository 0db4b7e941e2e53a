//! Tests for the `Host` value and the method table.

use http_request::{is_valid_extension_method, parse_host_from_wire, parse_method_from_wire};
use http_request::{Host, Method, ParseError};

#[test]
fn host_without_port_defaults_to_80() {
    let h = parse_host_from_wire("example.com").unwrap();
    assert_eq!(h.hostname, "example.com");
    assert_eq!(h.port, 80);
}

#[test]
fn host_with_port_keeps_it() {
    let h = parse_host_from_wire("example.com:8080").unwrap();
    assert_eq!(h.hostname, "example.com");
    assert_eq!(h.port, 8080);
}

#[test]
fn host_with_two_colons_is_malformed() {
    let e = parse_host_from_wire("a:80:90").unwrap_err();
    assert!(matches!(e, ParseError::MalformedHost));
}

#[test]
fn host_with_bad_port_names_the_segment() {
    match parse_host_from_wire("example.com:http").unwrap_err() {
        ParseError::InvalidPort(seg) => assert_eq!(seg, "http"),
        other => panic!("expected InvalidPort, got {:?}", other),
    }
}

#[test]
fn host_port_with_plus_sign_parses_as_rust_does() {
    let h = parse_host_from_wire("a:+8080").unwrap();
    assert_eq!(h.port, 8080);
}

#[test]
fn host_port_at_u32_limit() {
    let h = parse_host_from_wire("a:4294967295").unwrap();
    assert_eq!(h.port, 4294967295);
    let e = parse_host_from_wire("a:4294967296").unwrap_err();
    assert!(matches!(e, ParseError::InvalidPort(_)));
}

#[test]
fn host_render_includes_defaulted_port() {
    let h = parse_host_from_wire("example.com").unwrap();
    assert_eq!(h.render(), "example.com:80");
}

#[test]
fn host_render_parse_round_trip() {
    for wire in ["example.com", "example.com:8080", "localhost:0", "a:+99"] {
        let h = parse_host_from_wire(wire).unwrap();
        let again = parse_host_from_wire(&h.render()).unwrap();
        assert_eq!(again.hostname, h.hostname);
        assert_eq!(again.port, h.port);
    }
}

#[test]
fn host_render_direct() {
    let h = Host { hostname: String::from("127.0.0.1"), port: 8080 };
    assert_eq!(h.render(), "127.0.0.1:8080");
}

#[test]
fn empty_hostname_is_accepted_with_default_port() {
    let h = parse_host_from_wire("").unwrap();
    assert_eq!(h.hostname, "");
    assert_eq!(h.port, 80);
}

#[test]
fn standard_method_tokens_parse_to_their_variants() {
    assert!(matches!(parse_method_from_wire("OPTIONS").unwrap(), Method::OPTIONS));
    assert!(matches!(parse_method_from_wire("GET").unwrap(), Method::GET));
    assert!(matches!(parse_method_from_wire("POST").unwrap(), Method::POST));
    assert!(matches!(parse_method_from_wire("PUT").unwrap(), Method::PUT));
    assert!(matches!(parse_method_from_wire("DELETE").unwrap(), Method::DELETE));
    assert!(matches!(parse_method_from_wire("TRACE").unwrap(), Method::TRACE));
    assert!(matches!(parse_method_from_wire("CONNECT").unwrap(), Method::CONNECT));
}

#[test]
fn alphabetic_token_becomes_extension() {
    match parse_method_from_wire("PATCH").unwrap() {
        Method::EXTENSION(t) => assert_eq!(t, "PATCH"),
        other => panic!("expected extension, got {:?}", other),
    }
}

#[test]
fn lowercase_get_is_an_extension_not_a_standard_method() {
    match parse_method_from_wire("get").unwrap() {
        Method::EXTENSION(t) => assert_eq!(t, "get"),
        other => panic!("expected extension, got {:?}", other),
    }
}

#[test]
fn non_alphabetic_token_fails_with_invalid_method() {
    match parse_method_from_wire("GET2").unwrap_err() {
        ParseError::InvalidMethod(t) => assert_eq!(t, "GET2"),
        other => panic!("expected InvalidMethod, got {:?}", other),
    }
    assert!(parse_method_from_wire("P@TCH").is_err());
}

#[test]
fn empty_method_token_is_an_extension_of_nothing() {
    // Every character of the empty token is alphabetic, vacuously.
    assert!(matches!(parse_method_from_wire("").unwrap(), Method::EXTENSION(_)));
}

#[test]
fn extension_method_validity_check() {
    assert!(is_valid_extension_method("PATCH"));
    assert!(is_valid_extension_method("purge"));
    assert!(!is_valid_extension_method("PA TCH"));
    assert!(!is_valid_extension_method("GET2"));
}

#[test]
fn method_render_writes_the_token_back() {
    for token in ["OPTIONS", "GET", "POST", "PUT", "DELETE", "TRACE", "CONNECT", "PATCH"] {
        let m = parse_method_from_wire(token).unwrap();
        assert_eq!(m.render(), token);
    }
}

#[test]
fn host_render_at_the_largest_port() {
    let h = Host { hostname: String::from("h"), port: 4294967295 };
    assert_eq!(h.render(), "h:4294967295");
}
