use rachel::agent::{create_request, create_response_frame, request_from_head};
use rachel::head::{HeadError, HeadStatus, RequestHead};
use rachel::message::{create_http_text, Header, HttpRequest, HttpResponse, HttpVersion};
use rachel::wire::{encode_request_frame, take_delimited, FrameStatus};

fn header(name: &str, value: &str) -> Header {
    Header { name: name.as_bytes().to_vec(), value: value.as_bytes().to_vec() }
}

#[test]
fn create_request_addresses_the_origin() {
    let got = create_request(
        b"GET /path?q=1 HTTP/1.1\r\nHost: bakadoduri.rachel.test\r\nX-T: 1\r\n\r\n",
        b"http://localhost",
        b"8000",
    );
    assert_eq!(
        got,
        Ok(HttpRequest {
            method: b"GET".to_vec(),
            target: b"http://localhost:8000/path?q=1".to_vec(),
            headers: vec![header("Host", "bakadoduri.rachel.test"), header("X-T", "1")],
            body: Vec::new(),
        })
    );
}

#[test]
fn create_request_keeps_the_body() {
    let got = create_request(b"POST /u HTTP/1.1\r\nA: b\r\n\r\nfield=1&x=\r\n\r\n", b"http://h", b"1")
        .unwrap();
    assert_eq!(got.method, b"POST".to_vec());
    assert_eq!(got.target, b"http://h:1/u".to_vec());
    assert_eq!(got.body, b"field=1&x=\r\n\r\n".to_vec());
}

#[test]
fn create_request_reports_bad_text() {
    assert_eq!(create_request(b"GET / HTTP/1.1\r\nHost: x", b"http://h", b"1"), Err(HeadError::Partial));
    assert_eq!(create_request(b"", b"http://h", b"1"), Err(HeadError::Partial));
    assert_eq!(create_request(b"GET / FTP/1.1\r\n\r\n", b"http://h", b"1"), Err(HeadError::Invalid));
    assert_eq!(create_request(b"G\0T / HTTP/1.1\r\n\r\n", b"http://h", b"1"), Err(HeadError::Invalid));
}

#[test]
fn request_from_head_checks_what_the_parser_reports() {
    let head = |status, method: Option<&str>, path: Option<&str>| RequestHead {
        status,
        method: method.map(|m| m.as_bytes().to_vec()),
        path: path.map(|p| p.as_bytes().to_vec()),
        version: Some(1),
        fields: vec![header("", ""), header("a", "1")],
    };
    assert_eq!(
        request_from_head(head(HeadStatus::Complete(2), Some("PUT"), Some("/x")), b"hhbb", b"u", b"9"),
        Ok(HttpRequest {
            method: b"PUT".to_vec(),
            target: b"u:9/x".to_vec(),
            headers: vec![header("a", "1")],
            body: b"bb".to_vec(),
        })
    );
    assert_eq!(
        request_from_head(head(HeadStatus::Complete(5), Some("PUT"), Some("/x")), b"hhbb", b"u", b"9"),
        Err(HeadError::Invalid)
    );
    assert_eq!(
        request_from_head(head(HeadStatus::Complete(2), None, Some("/x")), b"hhbb", b"u", b"9"),
        Err(HeadError::Invalid)
    );
    assert_eq!(
        request_from_head(head(HeadStatus::Complete(2), Some("PUT"), None), b"hhbb", b"u", b"9"),
        Err(HeadError::Invalid)
    );
    assert_eq!(
        request_from_head(head(HeadStatus::Partial, Some("PUT"), Some("/x")), b"hhbb", b"u", b"9"),
        Err(HeadError::Partial)
    );
    assert_eq!(
        request_from_head(head(HeadStatus::Invalid, Some("PUT"), Some("/x")), b"hhbb", b"u", b"9"),
        Err(HeadError::Invalid)
    );
}

#[test]
fn response_frame_carries_the_response_text() {
    let resp = HttpResponse {
        version: HttpVersion::Http11,
        status: 200,
        headers: vec![header("content-length", "5")],
        body: b"hello".to_vec(),
    };
    assert_eq!(
        create_response_frame(&resp),
        Some(b"43\0HTTP/1.1 200 OK\r\ncontent-length: 5\r\n\r\nhello".to_vec())
    );
    let odd = HttpResponse { status: 799, ..resp };
    assert_eq!(create_response_frame(&odd), None);
}

#[test]
fn request_reaches_the_origin_as_it_was_received() {
    let req = HttpRequest {
        method: b"PUT".to_vec(),
        target: b"/items/7?full=1".to_vec(),
        headers: vec![header("host", "bakadoduri.rachel.test"), header("X-T", "1"), header("x-t", "2")],
        body: b"{\"a\": [1, 2, 3]}\r\n".to_vec(),
    };
    let mut rx = encode_request_frame(&create_http_text(&req));
    let text = match take_delimited(&mut rx) {
        FrameStatus::Ready(text) => text,
        other => panic!("unexpected status {:?}", other),
    };
    assert!(rx.is_empty());
    let at_origin = create_request(&text, b"http://localhost", b"8000").unwrap();
    assert_eq!(at_origin.method, req.method);
    assert_eq!(at_origin.target, b"http://localhost:8000/items/7?full=1".to_vec());
    assert_eq!(at_origin.headers, req.headers);
    assert_eq!(at_origin.body, req.body);
}
