use ember::error::EmberError;
use ember::http::{HttpHandler, HttpResponse};
use ember::transport::{
    content_length, find_header_end, lines, next_word, parse_head_text, parse_request_head,
    reject, respond, settle, status_text, write_http_response, RawRequest, RequestReader,
    MAX_HEADER_BYTES,
};

struct Echo;

impl HttpHandler for Echo {
    fn handle(&self, method: &str, path: &str, body: &[u8]) -> Result<HttpResponse, EmberError> {
        if path == "/fail" {
            return Err(EmberError::msg("it failed"));
        }
        let mut text = format!("{} {} ", method, path).into_bytes();
        text.extend_from_slice(body);
        Ok(HttpResponse { status: 200, content_type: "text/plain", body: text })
    }
}

fn chars(s: &str) -> Vec<char> {
    s.chars().collect()
}

fn texts(lines: Vec<Vec<char>>) -> Vec<String> {
    lines.into_iter().map(|l| l.into_iter().collect()).collect()
}

#[test]
fn header_end_is_the_first_terminator() {
    assert_eq!(find_header_end(b""), None);
    assert_eq!(find_header_end(b"\r\n\r"), None);
    assert_eq!(find_header_end(b"\r\n\r\n"), Some(0));
    assert_eq!(find_header_end(b"GET / HTTP/1.1\r\n\r\nbody\r\n\r\n"), Some(14));
    assert_eq!(find_header_end(b"a\n\r\n\r\r\n\r\n"), Some(5));
    assert_eq!(find_header_end(b"a\r\n\rb\n\r\n"), None);
}

#[test]
fn lines_end_at_line_feeds() {
    assert_eq!(texts(lines(&chars(""))), Vec::<String>::new());
    assert_eq!(texts(lines(&chars("a"))), vec!["a"]);
    assert_eq!(texts(lines(&chars("a\n"))), vec!["a"]);
    assert_eq!(texts(lines(&chars("a\r\nb\r\n"))), vec!["a", "b"]);
    assert_eq!(texts(lines(&chars("a\r\nb\r"))), vec!["a", "b\r"]);
    assert_eq!(texts(lines(&chars("a\n\nb"))), vec!["a", "", "b"]);
    assert_eq!(texts(lines(&chars("\r\n"))), vec![""]);
    assert_eq!(texts(lines(&chars("a\r\r\nb"))), vec!["a\r", "b"]);
    for text in ["", "a", "a\n", "a\r\nb\r\n", "a\r\nb\r", "a\n\nb", "\r\n", "\n\n", "a\r\r\nb"] {
        let expected: Vec<String> = text.lines().map(|l| l.to_string()).collect();
        assert_eq!(texts(lines(&chars(text))), expected);
    }
}

#[test]
fn words_are_cut_at_white_space() {
    let line = chars("  GET\t /books  HTTP/1.1");
    assert_eq!(next_word(&line, 0), (2, 5));
    assert_eq!(next_word(&line, 5), (7, 13));
    assert_eq!(next_word(&line, 13), (15, 23));
    assert_eq!(next_word(&line, 23), (23, 23));
    let blank = chars(" \u{00a0}\u{3000} ");
    assert_eq!(next_word(&blank, 0), (4, 4));
}

#[test]
fn head_gives_method_target_and_length() {
    let head = parse_request_head(
        b"POST /books?x=1 HTTP/1.1\r\nHost: a\r\nContent-Length: 12\r\nAccept: */*",
    )
    .unwrap();
    assert_eq!(head.method, "POST");
    assert_eq!(head.target, "/books?x=1");
    assert_eq!(head.content_length, 12);
}

#[test]
fn head_without_version_is_read() {
    let head = parse_request_head(b"GET /").unwrap();
    assert_eq!(head.method, "GET");
    assert_eq!(head.target, "/");
    assert_eq!(head.content_length, 0);
}

#[test]
fn head_that_lacks_a_part_is_refused() {
    assert_eq!(parse_request_head(b"").unwrap_err().to_string(), "missing request line");
    assert_eq!(parse_request_head(b"\r\nGET /").unwrap_err().to_string(), "missing method");
    assert_eq!(parse_request_head(b"   \r\n").unwrap_err().to_string(), "missing method");
    assert_eq!(parse_request_head(b"GET").unwrap_err().to_string(), "missing path");
    assert_eq!(parse_request_head(b"GET  \r\n/x").unwrap_err().to_string(), "missing path");
}

#[test]
fn head_that_is_no_utf8_is_read_leniently() {
    let head = parse_request_head(b"GET /\xff\xfe HTTP/1.1").unwrap();
    assert_eq!(head.target, "/\u{fffd}\u{fffd}");
    let text = parse_head_text("GET /é").unwrap();
    assert_eq!(text.target, "/é");
}

#[test]
fn content_length_is_that_of_the_first_such_line() {
    let n = |text: &str| content_length(&lines(&chars(text)), 1);
    assert_eq!(n("GET /\r\nContent-Length: 5\r\nContent-Length: 7"), 5);
    assert_eq!(n("GET /\r\nContent-Length: x\r\nContent-Length: 7"), 0);
    assert_eq!(n("GET /\r\nContent-Length:\t 42 \r\n"), 42);
    assert_eq!(n("GET /\r\nContent-Length:+42"), 42);
    assert_eq!(n("GET /\r\nContent-Length: -1"), 0);
    assert_eq!(n("GET /\r\nContent-Length: 4 2"), 0);
    assert_eq!(n("GET /\r\nContent-Length: 18446744073709551616"), 0);
    assert_eq!(n("GET /\r\ncontent-length: 5"), 0);
    assert_eq!(n("GET /\r\n Content-Length: 5"), 0);
    assert_eq!(n("GET /\r\nX: Content-Length: 5"), 0);
    assert_eq!(n("Content-Length: 9\r\nHost: a"), 0);
    assert_eq!(n("GET /"), 0);
    assert_eq!(content_length(&lines(&chars("Content-Length: 9\r\nHost: a")), 0), 9);
    assert_eq!(content_length(&lines(&chars("")), 0), 0);
}

#[test]
fn reader_frames_a_request_in_one_chunk() {
    let r = RequestReader::new();
    assert!(r.wants_read());
    let r = r.feed(b"POST /echo HTTP/1.1\r\nContent-Length: 5\r\n\r\nhello");
    assert!(!r.wants_read());
    let q = r.into_request().unwrap().unwrap();
    assert_eq!(q.method, "POST");
    assert_eq!(q.target, "/echo");
    assert_eq!(q.body, b"hello".to_vec());
}

#[test]
fn reader_frames_a_request_byte_by_byte() {
    let wire = b"PUT /a?b=c HTTP/1.1\r\nContent-Length: 3\r\n\r\nxyz";
    let mut r = RequestReader::new();
    for (i, b) in wire.iter().enumerate() {
        assert!(r.wants_read(), "the reader stopped at byte {}", i);
        r = r.feed(&[*b]);
    }
    assert!(!r.wants_read());
    let q = r.into_request().unwrap().unwrap();
    assert_eq!(q.method, "PUT");
    assert_eq!(q.target, "/a?b=c");
    assert_eq!(q.body, b"xyz".to_vec());
}

#[test]
fn reader_keeps_what_was_read_past_the_body() {
    let r = RequestReader::new().feed(b"POST / HTTP/1.1\r\nContent-Length: 2\r\n\r\nabcdef");
    let q = r.into_request().unwrap().unwrap();
    assert_eq!(q.body, b"abcdef".to_vec());
}

#[test]
fn reader_accepts_a_body_cut_short() {
    let r = RequestReader::new().feed(b"POST / HTTP/1.1\r\nContent-Length: 9\r\n\r\nabc");
    assert!(r.wants_read());
    assert!(r.failure().is_none());
    let r = r.feed(b"");
    assert!(!r.wants_read());
    let q = r.into_request().unwrap().unwrap();
    assert_eq!(q.body, b"abc".to_vec());
}

#[test]
fn reader_without_body_is_done_at_the_terminator() {
    let r = RequestReader::new().feed(b"GET /books HTTP/1.1\r\nHost: x\r\n\r\n");
    let q = r.into_request().unwrap().unwrap();
    assert_eq!(q.method, "GET");
    assert!(q.body.is_empty());
}

#[test]
fn reader_fails_when_the_peer_closes_in_the_head() {
    let r = RequestReader::new().feed(b"");
    assert_eq!(r.into_request().unwrap().unwrap_err().to_string(), "connection closed");
    let r = RequestReader::new().feed(b"GET / HT").feed(b"");
    let response = r.failure().unwrap();
    assert_eq!(response.status, 400);
    assert_eq!(response.body, b"connection closed".to_vec());
}

#[test]
fn reader_fails_on_a_head_that_cannot_be_read() {
    let r = RequestReader::new().feed(b"GET\r\n\r\n");
    assert_eq!(r.into_request().unwrap().unwrap_err().to_string(), "missing path");
}

#[test]
fn reader_fails_on_a_head_over_the_limit() {
    assert_eq!(MAX_HEADER_BYTES, 64 * 1024);
    let chunk = [b'a'; 1024];
    let mut r = RequestReader::new();
    for _ in 0..64 {
        r = r.feed(&chunk);
        assert!(r.wants_read());
    }
    r = r.feed(b"b");
    assert!(!r.wants_read());
    let response = r.failure().unwrap();
    assert_eq!(response.status, 400);
    assert_eq!(response.content_type, "text/plain");
    assert_eq!(response.body, b"request headers too large".to_vec());
    assert_eq!(
        r.into_request().unwrap().unwrap_err().to_string(),
        "request headers too large"
    );
}

#[test]
fn reader_takes_a_large_head_that_ends_in_time() {
    let mut wire = b"GET / HTTP/1.1\r\nX: ".to_vec();
    wire.extend(std::iter::repeat(b'a').take(70_000));
    wire.extend_from_slice(b"\r\n\r\n");
    let r = RequestReader::new().feed(&wire);
    assert!(r.into_request().unwrap().is_ok());
}

#[test]
fn reader_that_is_finished_takes_no_more() {
    let r = RequestReader::new().feed(b"GET / HTTP/1.1\r\n\r\n").feed(b"more");
    let q = r.into_request().unwrap().unwrap();
    assert!(q.body.is_empty());
    let f = RequestReader::new().feed(b"").feed(b"GET / HTTP/1.1\r\n\r\n");
    assert_eq!(f.into_request().unwrap().unwrap_err().to_string(), "connection closed");
    assert!(RequestReader::new().into_request().is_none());
}

#[test]
fn reason_phrases_come_from_the_table() {
    assert_eq!(status_text(200), "OK");
    assert_eq!(status_text(201), "Created");
    assert_eq!(status_text(204), "No Content");
    assert_eq!(status_text(400), "Bad Request");
    assert_eq!(status_text(404), "Not Found");
    assert_eq!(status_text(500), "Internal Server Error");
    assert_eq!(status_text(302), "OK");
    assert_eq!(status_text(0), "OK");
}

#[test]
fn response_is_printed_head_then_body() {
    let r = HttpResponse { status: 201, content_type: "application/json", body: b"{}".to_vec() };
    assert_eq!(
        write_http_response(&r),
        b"HTTP/1.1 201 Created\r\nContent-Length: 2\r\nContent-Type: application/json\r\n\r\n{}"
            .to_vec()
    );
    let e = HttpResponse::empty(204);
    assert_eq!(
        write_http_response(&e),
        b"HTTP/1.1 204 No Content\r\nContent-Length: 0\r\nContent-Type: text/plain\r\n\r\n"
            .to_vec()
    );
    let odd = HttpResponse { status: 65535, content_type: "x", body: vec![0xff; 1000] };
    let wire = write_http_response(&odd);
    assert!(wire.starts_with(b"HTTP/1.1 65535 OK\r\nContent-Length: 1000\r\nContent-Type: x\r\n\r\n"));
    assert_eq!(wire.len(), 60 + 1000);
}

#[test]
fn unread_request_is_answered_400() {
    let r = reject(&EmberError::msg("missing path"));
    assert_eq!(r.status, 400);
    assert_eq!(r.content_type, "text/plain");
    assert_eq!(r.body, b"missing path".to_vec());
    let r = respond(&Echo, Err(EmberError::msg("connection closed")));
    assert_eq!(r.status, 400);
    assert_eq!(r.body, b"connection closed".to_vec());
}

#[test]
fn handler_error_is_answered_500() {
    let r = settle(Err(EmberError::msg("boom")));
    assert_eq!(r.status, 500);
    assert_eq!(r.content_type, "text/plain");
    assert_eq!(r.body, b"boom".to_vec());
    let q = RawRequest { method: "GET".to_string(), target: "/fail".to_string(), body: vec![] };
    let r = respond(&Echo, Ok(q));
    assert_eq!(r.status, 500);
    assert_eq!(r.body, b"it failed".to_vec());
}

#[test]
fn handler_response_goes_out_as_it_is() {
    let q = RawRequest { method: "POST".to_string(), target: "/x?y".to_string(), body: b"z".to_vec() };
    let r = respond(&Echo, Ok(q));
    assert_eq!(r.status, 200);
    assert_eq!(r.body, b"POST /x?y z".to_vec());
    let kept = settle(Ok(HttpResponse::empty(204)));
    assert_eq!(kept.status, 204);
}
