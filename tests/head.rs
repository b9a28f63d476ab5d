use dispatch_core::head::{parse_head, parse_head_text, HeadError};

#[test]
fn parses_request_line_and_fields() {
    let h = parse_head(b"GET /users/42 HTTP/1.1\r\nHost: x\r\nAccept:  */*".to_vec()).ok().unwrap();
    assert_eq!(h.method, "GET");
    assert_eq!(h.path, "/users/42");
    assert_eq!(h.version, "HTTP/1.1");
    assert_eq!(
        h.headers,
        vec![
            ("Host".to_string(), "x".to_string()),
            ("Accept".to_string(), "*/*".to_string())
        ]
    );
}

#[test]
fn invalid_utf8_is_encoding_error() {
    let r = parse_head(vec![b'G', b'E', b'T', b' ', 0xff, 0xfe, b' ', b'H']);
    assert_eq!(r.err(), Some(HeadError::Encoding));
}

#[test]
fn missing_parts_are_protocol_errors() {
    assert_eq!(parse_head(b"GET /nope".to_vec()).err(), Some(HeadError::Protocol));
    assert_eq!(parse_head(b"".to_vec()).err(), Some(HeadError::Protocol));
    assert_eq!(parse_head(b" / HTTP/1.1".to_vec()).err(), Some(HeadError::Protocol));
    assert_eq!(parse_head(b"GET  HTTP/1.1".to_vec()).err(), Some(HeadError::Protocol));
    assert_eq!(parse_head(b"GET / HTTP/1.1 x".to_vec()).err(), Some(HeadError::Protocol));
}

#[test]
fn bad_field_is_protocol_error() {
    assert_eq!(
        parse_head(b"GET / HTTP/1.1\r\nno colon here".to_vec()).err(),
        Some(HeadError::Protocol)
    );
    assert_eq!(
        parse_head(b"GET / HTTP/1.1\r\n: empty name".to_vec()).err(),
        Some(HeadError::Protocol)
    );
}

#[test]
fn head_without_fields() {
    let h = parse_head_text("POST /a HTTP/1.0").unwrap();
    assert_eq!(h.method, "POST");
    assert_eq!(h.path, "/a");
    assert_eq!(h.version, "HTTP/1.0");
    assert!(h.headers.is_empty());
}

#[test]
fn non_ascii_text_is_kept() {
    let h = parse_head("GET /caf\u{e9} HTTP/1.1\r\nX-Name: \u{fc}ber".as_bytes().to_vec()).ok().unwrap();
    assert_eq!(h.path, "/caf\u{e9}");
    assert_eq!(h.headers, vec![("X-Name".to_string(), "\u{fc}ber".to_string())]);
}
