use tama::assistant;
use tama::http::{inject, parse_request, read_done, response, Request, BODY_CAP};

fn req(raw: &str) -> Option<Request> {
    parse_request(raw.as_bytes())
}

#[test]
fn parse_request_reads_body_and_headers_case_insensitively() {
    let r = req("POST / HTTP/1.1\r\ncOnTeNt-LeNgTh: 4\r\nAuthorization: Bearer x\r\n\r\nabcd").unwrap();
    assert_eq!((r.method.as_str(), r.path.as_str()), ("POST", "/"));
    assert_eq!(r.auth.as_deref(), Some("Bearer x"));
    assert_eq!(r.body, "abcd");
}

#[test]
fn parse_request_handles_get_oversize_and_garbage() {
    let r = req("GET / HTTP/1.1\r\n\r\n").unwrap();
    assert_eq!(r.method, "GET");
    assert_eq!(r.body, "");
    assert!(req(&format!("POST / HTTP/1.1\r\nContent-Length: {}\r\n\r\n", BODY_CAP + 1)).is_none());
    assert!(req("\r\n").is_none());
}

#[test]
fn response_carries_status_and_content_length() {
    let r = response("200 OK", "{\"ok\":true}");
    assert!(r.starts_with("HTTP/1.1 200 OK\r\n"));
    assert!(r.contains("Content-Length: 11\r\n"));
    assert!(r.ends_with("{\"ok\":true}"));
}

#[test]
fn inject_splices_before_the_closing_brace() {
    assert_eq!(inject("{\"a\":\"b\"}", "id", "\"x\""), "{\"a\":\"b\",\"id\":\"x\"}");
    assert_eq!(inject("{\"a\":\"b\"}\n", "expires", "7"), "{\"a\":\"b\",\"expires\":7}");
    // round-trips through the parser
    let out = inject("{\"message\":\"oi\"}", "expires", "7");
    assert!(assistant::json_fields(&out).unwrap().iter().any(|(k, v)| k == "expires" && v == "7"));
}

#[test]
fn reading_stops_at_a_whole_request_or_past_the_cap() {
    assert!(read_done(b"GET / HTTP/1.1\r\n\r\n"));
    assert!(!read_done(b"POST / HTTP/1.1\r\nContent-Length: 4\r\n\r\nab"));
    assert!(read_done(b"POST / HTTP/1.1\r\nContent-Length: 4\r\n\r\nabcd"));
    let junk = vec![b'x'; BODY_CAP + 65537];
    assert!(read_done(&junk));
    assert!(!read_done(&junk[..100]));
}
