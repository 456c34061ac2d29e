use anx_core::http_parser::utils;
use anx_core::http_parser::{HttpMethod, HttpParseError, HttpRequest, HttpResponse};

#[test]
fn test_parse_simple_get_request() {
    let request = b"GET /index.html HTTP/1.1\r\nHost: example.com\r\nUser-Agent: ANX/1.0\r\n\r\n";

    let parsed = HttpRequest::parse(request).unwrap();
    assert_eq!(parsed.method, "GET");
    assert_eq!(parsed.uri, "/index.html");
    assert_eq!(parsed.version, "HTTP/1.1");
    assert_eq!(parsed.get_header("host").unwrap(), "example.com");
    assert_eq!(parsed.get_header("user-agent").unwrap(), "ANX/1.0");
}

#[test]
fn test_parse_post_request_with_body() {
    let request = b"POST /api/data HTTP/1.1\r\nHost: example.com\r\nContent-Type: application/json\r\nContent-Length: 13\r\n\r\n{\"key\":\"value\"}";

    let parsed = HttpRequest::parse(request).unwrap();
    assert_eq!(parsed.method, "POST");
    assert_eq!(parsed.uri, "/api/data");
    assert_eq!(parsed.get_content_length().unwrap(), 13);
    assert_eq!(parsed.body, b"{\"key\":\"value\"}");
}

#[test]
fn test_invalid_request() {
    let request = b"INVALID REQUEST";

    assert!(HttpRequest::parse(request).is_err());
}

#[test]
fn test_http_response_creation() {
    let mut response = HttpResponse::new(200, "OK");
    response.set_header("content-type".to_string(), "text/html".to_string());
    response.set_body(b"<html></html>".to_vec());

    let bytes = response.to_bytes();
    let response_str = String::from_utf8(bytes).unwrap();

    assert!(response_str.contains("HTTP/1.1 200 OK"));
    assert!(response_str.contains("content-type: text/html"));
    assert!(response_str.contains("content-length: 13"));
    assert!(response_str.contains("<html></html>"));
}

#[test]
fn test_url_decode() {
    assert_eq!(utils::url_decode("hello%20world").unwrap(), "hello world");
    assert_eq!(utils::url_decode("hello+world").unwrap(), "hello world");
    assert_eq!(utils::url_decode("hello%2Bworld").unwrap(), "hello+world");
}

#[test]
fn test_url_encode() {
    assert_eq!(utils::url_encode("hello world"), "hello+world");
    assert_eq!(utils::url_encode("hello+world"), "hello%2Bworld");
}

#[test]
fn parse_without_head_end_is_incomplete() {
    assert!(matches!(
        HttpRequest::parse(b"GET / HTTP/1.1\r\nHost: a\r\n"),
        Err(HttpParseError::Incomplete)
    ));
    assert!(matches!(HttpRequest::parse(b""), Err(HttpParseError::Incomplete)));
}

#[test]
fn parse_rejects_bytes_that_are_not_utf8() {
    assert!(matches!(
        HttpRequest::parse(b"GET / HTTP/1.1\r\n\r\n\xff\xfe"),
        Err(HttpParseError::Utf8Error(_))
    ));
    assert!(matches!(
        HttpRequest::parse(b"GET /\xc3 HTTP/1.1\r\n\r\n"),
        Err(HttpParseError::Utf8Error(_))
    ));
}

#[test]
fn parse_rejects_bad_request_line() {
    match HttpRequest::parse(b"GET /\r\n\r\n") {
        Err(HttpParseError::Invalid(msg)) => assert_eq!(msg, "Invalid request line"),
        other => panic!("unexpected: {:?}", other),
    }
    match HttpRequest::parse(b"GET / HTTP/1.1 extra\r\n\r\n") {
        Err(HttpParseError::Invalid(msg)) => assert_eq!(msg, "Invalid request line"),
        other => panic!("unexpected: {:?}", other),
    }
    match HttpRequest::parse(b"\r\n\r\n") {
        Err(HttpParseError::Invalid(msg)) => assert_eq!(msg, "Invalid request line"),
        other => panic!("unexpected: {:?}", other),
    }
}

#[test]
fn parse_rejects_unknown_method() {
    match HttpRequest::parse(b"FETCH / HTTP/1.1\r\n\r\n") {
        Err(HttpParseError::InvalidMethod(m)) => assert_eq!(m, "FETCH"),
        other => panic!("unexpected: {:?}", other),
    }
}

#[test]
fn parse_accepts_method_in_any_case() {
    let parsed = HttpRequest::parse(b"get / HTTP/1.1\r\n\r\n").unwrap();
    assert_eq!(parsed.method, "get");
    assert_eq!(parsed.get_method().unwrap(), HttpMethod::Get);
}

#[test]
fn parse_rejects_bad_version() {
    match HttpRequest::parse(b"GET / FTP/1.0\r\n\r\n") {
        Err(HttpParseError::InvalidVersion(v)) => assert_eq!(v, "FTP/1.0"),
        other => panic!("unexpected: {:?}", other),
    }
}

#[test]
fn parse_rejects_header_without_colon() {
    match HttpRequest::parse(b"GET / HTTP/1.1\r\nHost example.com\r\n\r\n") {
        Err(HttpParseError::InvalidHeader(h)) => assert_eq!(h, "Host example.com"),
        other => panic!("unexpected: {:?}", other),
    }
}

#[test]
fn parse_trims_and_lowercases_header_fields() {
    let parsed =
        HttpRequest::parse(b"GET /a  HTTP/1.0\r\n  X-Custom-NAME  :   some value  \r\n\r\nbody")
            .unwrap();
    assert_eq!(parsed.uri, "/a");
    assert_eq!(parsed.version, "HTTP/1.0");
    assert_eq!(parsed.headers.len(), 1);
    assert_eq!(parsed.headers[0].name, "x-custom-name");
    assert_eq!(parsed.headers[0].value, "some value");
    assert_eq!(parsed.get_header("X-CUSTOM-name").unwrap(), "some value");
    assert_eq!(parsed.body, b"body");
}

#[test]
fn parse_keeps_last_value_of_repeated_header() {
    let parsed =
        HttpRequest::parse(b"GET / HTTP/1.1\r\nAccept: a\r\nHost: h\r\naccept: b\r\n\r\n").unwrap();
    assert_eq!(parsed.headers.len(), 2);
    assert_eq!(parsed.get_header("accept").unwrap(), "b");
    assert_eq!(parsed.get_header("host").unwrap(), "h");
}

#[test]
fn parse_splits_value_at_first_colon() {
    let parsed = HttpRequest::parse(b"GET / HTTP/1.1\r\nHost: example.com:8080\r\n\r\n").unwrap();
    assert_eq!(parsed.get_host().unwrap(), "example.com:8080");
}

#[test]
fn parse_body_may_hold_head_end() {
    let parsed = HttpRequest::parse(b"GET / HTTP/1.1\r\n\r\na\r\n\r\nb").unwrap();
    assert_eq!(parsed.body, b"a\r\n\r\nb");
    assert!(parsed.headers.is_empty());
}

#[test]
fn parse_handles_text_beyond_ascii() {
    let parsed =
        HttpRequest::parse("GET /caf\u{e9} HTTP/1.1\r\nX-Name: \u{4e2d}\u{6587}\r\n\r\n".as_bytes())
            .unwrap();
    assert_eq!(parsed.uri, "/caf\u{e9}");
    assert_eq!(parsed.get_header("x-name").unwrap(), "\u{4e2d}\u{6587}");
}

#[test]
fn request_getters_read_their_fields() {
    let parsed = HttpRequest::parse(
        b"GET / HTTP/1.1\r\nHost: h\r\nUser-Agent: ua\r\nReferer: r\r\nAccept-Encoding: gzip\r\nIf-None-Match: \"abc\"\r\nIf-Modified-Since: 100\r\nContent-Type: text/plain\r\n\r\n",
    )
    .unwrap();
    assert_eq!(parsed.get_host().unwrap(), "h");
    assert_eq!(parsed.get_user_agent().unwrap(), "ua");
    assert_eq!(parsed.get_referer().unwrap(), "r");
    assert_eq!(parsed.get_accept_encoding().unwrap(), "gzip");
    assert_eq!(parsed.get_if_none_match().unwrap(), "\"abc\"");
    assert_eq!(parsed.get_if_modified_since().unwrap(), "100");
    assert_eq!(parsed.get_content_type().unwrap(), "text/plain");
    assert_eq!(parsed.get_content_length(), None);
    assert_eq!(parsed.get_header("missing"), None);
}

#[test]
fn content_length_must_be_a_number() {
    let mut request = HttpRequest::default();
    request.set_header("Content-Length".to_string(), "12a".to_string());
    assert_eq!(request.get_content_length(), None);
    request.set_header("Content-Length".to_string(), "+42".to_string());
    assert_eq!(request.get_content_length(), Some(42));
    request.set_header("Content-Length".to_string(), "".to_string());
    assert_eq!(request.get_content_length(), None);
    request.set_header("Content-Length".to_string(), "-1".to_string());
    assert_eq!(request.get_content_length(), None);
    request.set_header("Content-Length".to_string(), "007".to_string());
    assert_eq!(request.get_content_length(), Some(7));
    request
        .set_header("Content-Length".to_string(), "99999999999999999999999999".to_string());
    assert_eq!(request.get_content_length(), None);
    assert_eq!(request.headers.len(), 1);
}

#[test]
fn default_request_is_a_get_of_the_root() {
    let request = HttpRequest::default();
    assert_eq!(request.method, "GET");
    assert_eq!(request.uri, "/");
    assert_eq!(request.version, "HTTP/1.1");
    assert!(request.headers.is_empty());
    assert!(request.body.is_empty());
}

#[test]
fn keep_alive_follows_connection_field_then_version() {
    let mut request = HttpRequest::default();
    assert!(request.is_keep_alive());
    request.set_header("Connection".to_string(), "close".to_string());
    assert!(!request.is_keep_alive());
    request.set_header("connection".to_string(), "Keep-Alive".to_string());
    assert!(request.is_keep_alive());
    let old = HttpRequest::parse(b"GET / HTTP/1.0\r\n\r\n").unwrap();
    assert!(!old.is_keep_alive());
}

#[test]
fn method_names_round_trip() {
    let all = [
        (HttpMethod::Get, "GET"),
        (HttpMethod::Post, "POST"),
        (HttpMethod::Put, "PUT"),
        (HttpMethod::Delete, "DELETE"),
        (HttpMethod::Head, "HEAD"),
        (HttpMethod::Options, "OPTIONS"),
        (HttpMethod::Patch, "PATCH"),
        (HttpMethod::Trace, "TRACE"),
        (HttpMethod::Connect, "CONNECT"),
    ];
    for (method, name) in all {
        assert_eq!(method.as_str(), name);
        assert_eq!(HttpMethod::from_name(name).unwrap(), method);
        assert_eq!(HttpMethod::from_name(&name.to_lowercase()).unwrap(), method);
    }
    assert!(matches!(HttpMethod::from_name("GETS"), Err(HttpParseError::InvalidMethod(_))));
    assert!(matches!(HttpMethod::from_name(""), Err(HttpParseError::InvalidMethod(_))));
}

#[test]
fn response_wire_form_is_exact() {
    let mut response = HttpResponse::new(404, "Not Found");
    response.set_header("X-A".to_string(), "1".to_string());
    response.set_body(b"no".to_vec());
    response.set_header("x-a".to_string(), "2".to_string());
    assert_eq!(
        response.to_bytes(),
        b"HTTP/1.1 404 Not Found\r\nx-a: 2\r\ncontent-length: 2\r\n\r\nno".to_vec()
    );
}

#[test]
fn response_without_fields_or_body() {
    let response = HttpResponse::new(204, "No Content");
    assert_eq!(response.status_code, 204);
    assert_eq!(response.version, "HTTP/1.1");
    assert_eq!(response.to_bytes(), b"HTTP/1.1 204 No Content\r\n\r\n".to_vec());
}

#[test]
fn set_body_replaces_content_length() {
    let mut response = HttpResponse::new(200, "OK");
    response.set_body(vec![0u8; 1234]);
    response.set_body(Vec::new());
    assert_eq!(response.headers.len(), 1);
    assert_eq!(response.headers[0].name, "content-length");
    assert_eq!(response.headers[0].value, "0");
    assert!(response.body.is_empty());
}

#[test]
fn http_date_is_seconds_in_decimal() {
    assert_eq!(utils::parse_http_date("0"), Some(0));
    assert_eq!(utils::parse_http_date("1700000000"), Some(1_700_000_000));
    assert_eq!(utils::parse_http_date("18446744073709551615"), Some(u64::MAX));
    assert_eq!(utils::parse_http_date("18446744073709551616"), None);
    assert_eq!(utils::parse_http_date("Mon, 01 Jan 2024 00:00:00 GMT"), None);
    assert_eq!(utils::parse_http_date(""), None);
    assert_eq!(utils::parse_http_date("+"), None);
    assert_eq!(utils::parse_http_date(" 1"), None);
    assert_eq!(utils::format_http_date(0), "0");
    assert_eq!(utils::format_http_date(1_700_000_000), "1700000000");
    assert_eq!(utils::format_http_date(u64::MAX), "18446744073709551615");
}

#[test]
fn url_decode_reports_bad_escapes() {
    match utils::url_decode("abc%2") {
        Err(HttpParseError::Invalid(msg)) => assert_eq!(msg, "Incomplete URL encoding"),
        other => panic!("unexpected: {:?}", other),
    }
    match utils::url_decode("%") {
        Err(HttpParseError::Invalid(msg)) => assert_eq!(msg, "Incomplete URL encoding"),
        other => panic!("unexpected: {:?}", other),
    }
    match utils::url_decode("%zz") {
        Err(HttpParseError::Invalid(msg)) => assert_eq!(msg, "Invalid URL encoding"),
        other => panic!("unexpected: {:?}", other),
    }
    match utils::url_decode("%2-") {
        Err(HttpParseError::Invalid(msg)) => assert_eq!(msg, "Invalid URL encoding"),
        other => panic!("unexpected: {:?}", other),
    }
}

#[test]
fn url_decode_reads_hex_of_either_case() {
    assert_eq!(utils::url_decode("%41%6a%6A").unwrap(), "Ajj");
    assert_eq!(utils::url_decode("%e9").unwrap(), "\u{e9}");
    assert_eq!(utils::url_decode("%+5").unwrap(), "\u{5}");
    assert_eq!(utils::url_decode("").unwrap(), "");
    assert_eq!(utils::url_decode("a%25b").unwrap(), "a%b");
}

#[test]
fn url_encode_escapes_reserved_bytes() {
    assert_eq!(utils::url_encode("AZaz09-_.~"), "AZaz09-_.~");
    assert_eq!(utils::url_encode("a/b?c=d&e"), "a%2Fb%3Fc%3Dd%26e");
    assert_eq!(utils::url_encode("\u{e9}"), "%C3%A9");
    assert_eq!(utils::url_encode("\n"), "%0A");
    assert_eq!(utils::url_encode(""), "");
}

#[test]
fn url_encode_then_decode_gives_ascii_back() {
    let text = "a b+c/d?e=f&g~h";
    assert_eq!(utils::url_decode(&utils::url_encode(text)).unwrap(), text);
}
