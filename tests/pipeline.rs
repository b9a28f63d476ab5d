use dispatch_core::head::HeadError;
use dispatch_core::pipeline::prepare;
use dispatch_core::reader::{RequestReader, MAX_REQUEST_BYTES};
use dispatch_core::router::{Router, Target};

#[test]
fn request_to_users_route_gets_id() {
    let mut router = Router::new();
    router.add("GET", "/users/:id");
    let p = prepare(&router, b"GET /users/42 HTTP/1.1\r\nHost: x\r\n\r\n").ok().unwrap();
    assert_eq!(p.target, Target::Route(0));
    assert_eq!(p.params, vec![("id".to_string(), "42".to_string())]);
    assert_eq!(p.head.headers, vec![("Host".to_string(), "x".to_string())]);
    assert!(p.body.is_empty());
}

#[test]
fn body_follows_blank_line() {
    let router = Router::new();
    let p = prepare(&router, b"POST /nope HTTP/1.1\r\nContent-Length: 3\r\n\r\nabc").ok().unwrap();
    assert_eq!(p.target, Target::NotFound);
    assert!(p.params.is_empty());
    assert_eq!(p.body, b"abc".to_vec());
}

#[test]
fn invalid_encoding_is_rejected() {
    let router = Router::new();
    let r = prepare(&router, b"GET /\xc3\x28 HTTP/1.1\r\n\r\n");
    assert_eq!(r.err(), Some(HeadError::Encoding));
}

#[test]
fn truncated_stream_without_separator_is_protocol_error() {
    let stream = vec![b'a'; 20000];
    let mut reader = RequestReader::new();
    let mut offered = 0;
    loop {
        let end = std::cmp::min(offered + reader.wanted(), stream.len());
        let more = reader.push(&stream[offered..end]);
        offered = end;
        if !more {
            break;
        }
    }
    let bytes = reader.into_bytes();
    assert_eq!(bytes.len(), MAX_REQUEST_BYTES);
    let router = Router::new();
    assert_eq!(prepare(&router, &bytes).err(), Some(HeadError::Protocol));
}
