use netflow::demo::{answer_packet, answer_text, starts_like_http};

#[test]
fn http_is_turned_away() {
    assert_eq!(answer_text("GET HTTP/1.1"), Some(b"Nah Nah Nah, HTTP!".to_vec()));
    assert_eq!(
        answer_packet(b"GET HTTP/1.1\r\nHost: here\r\n"),
        Some(b"Nah Nah Nah, HTTP!".to_vec())
    );
    assert_eq!(answer_packet(b"GET HTTP/1.1\xff"), Some(b"Nah Nah Nah, HTTP!".to_vec()));
}

#[test]
fn anything_else_gets_no_answer() {
    assert_eq!(answer_packet(b""), None);
    assert_eq!(answer_packet(b"GET HTTP/1."), None);
    assert_eq!(answer_packet(b"GET / HTTP/1.1"), None);
    assert_eq!(answer_packet(b" GET HTTP/1.1"), None);
    assert_eq!(answer_packet(b"\xffGET HTTP/1.1"), None);
    assert_eq!(answer_text("get http/1.1"), None);
    assert!(!starts_like_http("GET HTTP/2.1 and more"));
    assert!(starts_like_http("GET HTTP/1.1 and more"));
}
