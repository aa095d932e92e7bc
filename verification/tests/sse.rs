use behest::sse::{extract_event, find_event_boundary, parse_event_block};

#[test]
fn find_event_boundary_accepts_lf_lf() {
    let boundary = find_event_boundary("data: hello\n\n").expect("boundary");
    assert_eq!(boundary.end, "data: hello\n\n".len());
}

#[test]
fn find_event_boundary_accepts_crlf_crlf() {
    let boundary = find_event_boundary("data: hello\r\n\r\n").expect("boundary");
    assert_eq!(boundary.end, "data: hello\r\n\r\n".len());
}

#[test]
fn find_event_boundary_accepts_cr_cr() {
    let boundary = find_event_boundary("data: hello\r\r").expect("boundary");
    assert_eq!(boundary.end, "data: hello\r\r".len());
}

#[test]
fn no_boundary_in_partial_event() {
    assert!(find_event_boundary("data: hel").is_none());
}

#[test]
fn parse_block_joins_data_lines() {
    let ev = parse_event_block("event: delta\ndata: {\"a\":1}\ndata:  two\n").expect("event");
    assert_eq!(ev.event.as_deref(), Some("delta"));
    assert_eq!(ev.data, "{\"a\":1}\ntwo");
    assert!(parse_event_block(": comment only\n").is_none());
}

#[test]
fn extract_event_consumes_one_event() {
    let mut buffer = "data: [DONE]\n\ndata: next".to_string();
    let ev = extract_event(&mut buffer).expect("event");
    assert!(ev.is_openai_done());
    assert_eq!(buffer, "data: next");
    assert!(extract_event(&mut buffer).is_none());
    assert_eq!(buffer, "data: next");
}

#[test]
fn decoder_buffers_partial_chunks() {
    let mut d = behest::sse::SseDecoder::new();
    d.push_bytes(b"data: hel");
    assert!(d.next_event().is_none());
    d.push_bytes(b"lo\n\ndata: [DONE]\n\n");
    let first = d.next_event().unwrap();
    assert_eq!(first.data, "hello");
    let second = d.next_event().unwrap();
    assert!(second.is_openai_done());
    assert!(d.next_event().is_none());
}

#[test]
fn decoder_replaces_invalid_utf8() {
    let mut d = behest::sse::SseDecoder::default();
    d.push_bytes(&[b'd', b'a', b't', b'a', b':', b' ', 0xff, b'\n', b'\n']);
    let ev = d.next_event().unwrap();
    assert_eq!(ev.data, "\u{fffd}");
}
