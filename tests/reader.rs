use dispatch_core::reader::{RequestReader, MAX_REQUEST_BYTES, READ_CHUNK};

fn feed(stream: &[u8]) -> (Vec<u8>, usize) {
    let mut reader = RequestReader::new();
    let mut offered = 0;
    let mut reads = 0;
    loop {
        let want = reader.wanted();
        assert!(want > 0);
        let end = std::cmp::min(offered + want, stream.len());
        let chunk = &stream[offered..end];
        offered = end;
        reads += 1;
        if !reader.push(chunk) {
            break;
        }
    }
    assert!(reader.is_done());
    (reader.into_bytes(), reads)
}

#[test]
fn long_stream_stops_at_cap() {
    let stream = vec![b'a'; 20000];
    let (bytes, reads) = feed(&stream);
    assert_eq!(MAX_REQUEST_BYTES, 8224);
    assert_eq!(bytes.len(), MAX_REQUEST_BYTES);
    assert_eq!(bytes, stream[..MAX_REQUEST_BYTES].to_vec());
    // 16 full chunks, then the 32 bytes left before the cap.
    assert_eq!(reads, 17);
}

#[test]
fn short_stream_read_until_closed() {
    let stream = b"GET / HTTP/1.1\r\n\r\n".to_vec();
    let (bytes, reads) = feed(&stream);
    assert_eq!(bytes, stream);
    assert_eq!(reads, 2);
}

#[test]
fn empty_stream_gives_nothing() {
    let (bytes, reads) = feed(b"");
    assert!(bytes.is_empty());
    assert_eq!(reads, 1);
}

#[test]
fn wanted_shrinks_near_cap() {
    let mut reader = RequestReader::new();
    assert_eq!(reader.wanted(), READ_CHUNK);
    let chunk = vec![0u8; READ_CHUNK];
    for _ in 0..16 {
        assert!(reader.push(&chunk));
    }
    assert_eq!(reader.wanted(), MAX_REQUEST_BYTES - 16 * READ_CHUNK);
    assert!(!reader.push(&vec![1u8; reader.wanted()]));
    assert_eq!(reader.wanted(), 0);
}

#[test]
fn stream_of_exactly_cap_stops_without_extra_read() {
    let stream = vec![b'z'; MAX_REQUEST_BYTES];
    let (bytes, reads) = feed(&stream);
    assert_eq!(bytes.len(), MAX_REQUEST_BYTES);
    assert_eq!(reads, 17);
}
