use rachel::bytes::{append_bytes, bytes_eq, copy_range};
use rachel::message::{
    create_http_text, create_response_text, push_headers, response_text_with_reason, Header,
    HttpRequest, HttpResponse, HttpVersion,
};

fn header(name: &str, value: &str) -> Header {
    Header { name: name.as_bytes().to_vec(), value: value.as_bytes().to_vec() }
}

#[test]
fn bytes_helpers() {
    let mut out = b"ab".to_vec();
    append_bytes(&mut out, b"cd");
    append_bytes(&mut out, b"");
    assert_eq!(out, b"abcd".to_vec());
    assert_eq!(copy_range(b"abcdef", 2, 4), b"cd".to_vec());
    assert_eq!(copy_range(b"abcdef", 3, 3), Vec::<u8>::new());
    assert!(bytes_eq(b"abc", b"abc"));
    assert!(bytes_eq(b"", b""));
    assert!(!bytes_eq(b"abc", b"abd"));
    assert!(!bytes_eq(b"abc", b"ab"));
}

#[test]
fn request_text_is_canonical() {
    let req = HttpRequest {
        method: b"GET".to_vec(),
        target: b"/path?q=1".to_vec(),
        headers: vec![header("host", "bakadoduri.rachel.test"), header("X-T", "1")],
        body: Vec::new(),
    };
    assert_eq!(
        create_http_text(&req),
        b"GET /path?q=1 HTTP/1.1\r\nhost: bakadoduri.rachel.test\r\nX-T: 1\r\n\r\n".to_vec()
    );
}

#[test]
fn request_text_keeps_header_order_and_body() {
    let req = HttpRequest {
        method: b"POST".to_vec(),
        target: b"/".to_vec(),
        headers: vec![header("b", "2"), header("a", "1"), header("b", "3")],
        body: b"line1\r\nline2".to_vec(),
    };
    assert_eq!(
        create_http_text(&req),
        b"POST / HTTP/1.1\r\nb: 2\r\na: 1\r\nb: 3\r\n\r\nline1\r\nline2".to_vec()
    );
}

#[test]
fn request_text_without_headers() {
    let req = HttpRequest {
        method: b"GET".to_vec(),
        target: b"/".to_vec(),
        headers: Vec::new(),
        body: Vec::new(),
    };
    assert_eq!(create_http_text(&req), b"GET / HTTP/1.1\r\n\r\n".to_vec());
}

#[test]
fn push_headers_appends_lines() {
    let mut out = b">".to_vec();
    push_headers(&mut out, &vec![header("A", "b"), header("", "")]);
    assert_eq!(out, b">A: b\r\n: \r\n".to_vec());
}

#[test]
fn response_text_uses_canonical_reason() {
    let resp = HttpResponse {
        version: HttpVersion::Http11,
        status: 200,
        headers: vec![header("content-type", "text/plain")],
        body: b"hello".to_vec(),
    };
    assert_eq!(
        create_response_text(&resp),
        Some(b"HTTP/1.1 200 OK\r\ncontent-type: text/plain\r\n\r\nhello".to_vec())
    );
    let missing = HttpResponse { status: 404, ..resp.clone() };
    assert_eq!(
        create_response_text(&missing),
        Some(b"HTTP/1.1 404 Not Found\r\ncontent-type: text/plain\r\n\r\nhello".to_vec())
    );
    let teapot = HttpResponse { status: 418, headers: Vec::new(), body: Vec::new(), ..resp };
    assert_eq!(create_response_text(&teapot), Some(b"HTTP/1.1 418 I'm a teapot\r\n\r\n".to_vec()));
}

#[test]
fn response_text_needs_a_canonical_reason() {
    let odd = HttpResponse {
        version: HttpVersion::Http11,
        status: 299,
        headers: Vec::new(),
        body: Vec::new(),
    };
    assert_eq!(create_response_text(&odd), None);
    let out_of_range = HttpResponse { status: 99, ..odd.clone() };
    assert_eq!(create_response_text(&out_of_range), None);
    let too_big = HttpResponse { status: 1000, ..odd };
    assert_eq!(create_response_text(&too_big), None);
}

#[test]
fn response_text_with_given_reason() {
    let resp = HttpResponse {
        version: HttpVersion::Http10,
        status: 299,
        headers: Vec::new(),
        body: b"x".to_vec(),
    };
    assert_eq!(
        response_text_with_reason(&resp, b"Odd"),
        b"HTTP/1.1 299 Odd\r\n\r\nx".to_vec()
    );
    assert_eq!(response_text_with_reason(&resp, b""), b"HTTP/1.1 299 \r\n\r\nx".to_vec());
}

#[test]
fn synthetic_responses() {
    let r = HttpResponse::bad_request();
    assert_eq!((r.status, r.body, r.version), (400, b"400 Bad Request".to_vec(), HttpVersion::Http11));
    assert!(r.headers.is_empty());
    let r = HttpResponse::not_found();
    assert_eq!((r.status, r.body), (404, b"404 Service Not Found".to_vec()));
    let r = HttpResponse::bad_gateway();
    assert_eq!((r.status, r.body), (502, b"502 Bad Gateway".to_vec()));
    let r = HttpResponse::internal_error();
    assert_eq!((r.status, r.body), (500, b"500 Internal Server Error".to_vec()));
    let r = HttpResponse::synthetic(204, Vec::new());
    assert_eq!(
        r,
        HttpResponse { version: HttpVersion::Http11, status: 204, headers: Vec::new(), body: Vec::new() }
    );
}
