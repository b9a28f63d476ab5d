use dispatch_core::framing::{find_separator, split_request};

#[test]
fn split_at_first_blank_line() {
    let raw = b"GET / HTTP/1.1\r\nHost: x\r\n\r\nhello\r\n\r\nworld";
    let (head, body) = split_request(raw);
    assert_eq!(head, b"GET / HTTP/1.1\r\nHost: x".to_vec());
    assert_eq!(body, b"hello\r\n\r\nworld".to_vec());
}

#[test]
fn no_separator_means_all_head() {
    let raw = b"GET / HTTP/1.1\r\nHost: x\r\n";
    let (head, body) = split_request(raw);
    assert_eq!(head, raw.to_vec());
    assert!(body.is_empty());
}

#[test]
fn separator_at_start_gives_empty_head() {
    let (head, body) = split_request(b"\r\n\r\nabc");
    assert!(head.is_empty());
    assert_eq!(body, b"abc".to_vec());
}

#[test]
fn empty_input_splits_into_nothing() {
    let (head, body) = split_request(b"");
    assert!(head.is_empty());
    assert!(body.is_empty());
}

#[test]
fn find_separator_positions() {
    assert_eq!(find_separator(b"ab\r\n\r\n"), Some(2));
    assert_eq!(find_separator(b"\r\n\r"), None);
    assert_eq!(find_separator(b"a\r\n\r\n\r\n"), Some(1));
}
