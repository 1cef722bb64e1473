//! HTTP messages as plain values, and their HTTP/1.1 text form.
//!
//! A message is written as its first line, each header as
//! `Name: Value\r\n` in the order held, an empty line, then the body.
//! Names and values are written as stored.

use vstd::prelude::*;
use crate::bytes::append_bytes;
use crate::wire::{decimal_digits, push_decimal};

verus! {

/// One header field.
#[derive(Clone, Debug, PartialEq, Eq)]
pub struct Header {
    pub name: Vec<u8>,
    pub value: Vec<u8>,
}

/// A header field as byte sequences.
pub struct HeaderText {
    pub name: Seq<u8>,
    pub value: Seq<u8>,
}

impl View for Header {
    type V = HeaderText;

    open spec fn view(&self) -> HeaderText {
        HeaderText { name: self.name@, value: self.value@ }
    }
}

/// The fields of a header list, in order.
pub open spec fn headers_text(hs: Seq<Header>) -> Seq<HeaderText> {
    Seq::new(hs.len(), |i: int| hs[i]@)
}

/// The protocol version a message announces.
#[derive(Clone, Copy, Debug, PartialEq, Eq, Structural)]
pub enum HttpVersion {
    Http10,
    Http11,
}

/// A request as the public listener received it.
#[derive(Clone, Debug, PartialEq, Eq)]
pub struct HttpRequest {
    pub method: Vec<u8>,
    /// The request target, written verbatim on the request line.
    pub target: Vec<u8>,
    pub headers: Vec<Header>,
    pub body: Vec<u8>,
}

/// A request as plain sequences.
pub struct RequestText {
    pub method: Seq<u8>,
    pub target: Seq<u8>,
    pub headers: Seq<HeaderText>,
    pub body: Seq<u8>,
}

impl View for HttpRequest {
    type V = RequestText;

    open spec fn view(&self) -> RequestText {
        RequestText {
            method: self.method@,
            target: self.target@,
            headers: headers_text(self.headers@),
            body: self.body@,
        }
    }
}

/// A response on its way back to the public caller.
#[derive(Clone, Debug, PartialEq, Eq)]
pub struct HttpResponse {
    pub version: HttpVersion,
    pub status: u16,
    pub headers: Vec<Header>,
    pub body: Vec<u8>,
}

/// A response as plain sequences.
pub struct ResponseText {
    pub version: HttpVersion,
    pub status: u16,
    pub headers: Seq<HeaderText>,
    pub body: Seq<u8>,
}

impl View for HttpResponse {
    type V = ResponseText;

    open spec fn view(&self) -> ResponseText {
        ResponseText {
            version: self.version,
            status: self.status,
            headers: headers_text(self.headers@),
            body: self.body@,
        }
    }
}

/// `\r\n`
pub open spec fn crlf() -> Seq<u8> {
    seq![13u8, 10u8]
}

/// ` HTTP/1.1\r\n`, the end of every request line written here.
pub open spec fn request_line_tail() -> Seq<u8> {
    seq![32u8, 72u8, 84u8, 84u8, 80u8, 47u8, 49u8, 46u8, 49u8, 13u8, 10u8]
}

/// `HTTP/1.1 `, the start of every status line written here.
pub open spec fn status_line_head() -> Seq<u8> {
    seq![72u8, 84u8, 84u8, 80u8, 47u8, 49u8, 46u8, 49u8, 32u8]
}

/// `Name: Value\r\n`
pub open spec fn header_line(h: HeaderText) -> Seq<u8> {
    h.name + seq![58u8, 32u8] + h.value + crlf()
}

/// The header lines of a list, in order.
pub open spec fn header_block(hs: Seq<HeaderText>) -> Seq<u8>
    decreases hs.len(),
{
    if hs.len() == 0 {
        Seq::empty()
    } else {
        header_block(hs.drop_last()) + header_line(hs.last())
    }
}

/// The HTTP/1.1 text of a request.
pub open spec fn request_text(r: RequestText) -> Seq<u8> {
    r.method + seq![32u8] + r.target + request_line_tail() + header_block(r.headers) + crlf()
        + r.body
}

/// The HTTP/1.1 text of a response with the given reason phrase.
pub open spec fn response_text(r: ResponseText, reason: Seq<u8>) -> Seq<u8> {
    status_line_head() + decimal_digits(r.status as nat) + seq![32u8] + reason + crlf()
        + header_block(r.headers) + crlf() + r.body
}

/// Writes the header lines of `headers` at the end of `out`.
pub fn push_headers(out: &mut Vec<u8>, headers: &Vec<Header>)
    ensures
        final(out)@ == old(out)@ + header_block(headers_text(headers@)),
{
    let n: usize = headers.len();
    let ghost all = headers_text(headers@);
    let mut i: usize = 0;
    while i < n
        invariant
            n == headers@.len(),
            i <= n,
            all == headers_text(headers@),
            out@ == old(out)@ + header_block(all.subrange(0, i as int)),
        decreases n - i,
    {
        let ghost before = out@;
        let h: &Header = &headers[i];
        append_bytes(out, h.name.as_slice());
        out.push(58);
        out.push(32);
        append_bytes(out, h.value.as_slice());
        out.push(13);
        out.push(10);
        proof {
            let upto = all.subrange(0, i + 1);
            assert(upto.drop_last() =~= all.subrange(0, i as int));
            assert(upto.last() == headers@[i as int]@);
            assert(out@ =~= before + header_line(upto.last()));
            assert(out@ =~= old(out)@ + header_block(upto));
        }
        i = i + 1;
    }
    assert(all.subrange(0, n as int) =~= all);
}

/// Serialises a request to its HTTP/1.1 text.
pub fn create_http_text(req: &HttpRequest) -> (text: Vec<u8>)
    ensures
        text@ == request_text(req@),
{
    let mut text: Vec<u8> = Vec::new();
    append_bytes(&mut text, req.method.as_slice());
    text.push(32);
    append_bytes(&mut text, req.target.as_slice());
    let tail: Vec<u8> = vec![32u8, 72u8, 84u8, 84u8, 80u8, 47u8, 49u8, 46u8, 49u8, 13u8, 10u8];
    assert(tail@ =~= request_line_tail());
    append_bytes(&mut text, tail.as_slice());
    push_headers(&mut text, &req.headers);
    text.push(13);
    text.push(10);
    append_bytes(&mut text, req.body.as_slice());
    assert(text@ =~= request_text(req@));
    text
}

/// Serialises a response to its HTTP/1.1 text, with `reason` as the
/// reason phrase of the status line.
pub fn response_text_with_reason(resp: &HttpResponse, reason: &[u8]) -> (text: Vec<u8>)
    ensures
        text@ == response_text(resp@, reason@),
{
    let mut text: Vec<u8> = vec![72u8, 84u8, 84u8, 80u8, 47u8, 49u8, 46u8, 49u8, 32u8];
    assert(text@ =~= status_line_head());
    push_decimal(&mut text, resp.status as usize);
    text.push(32);
    append_bytes(&mut text, reason);
    text.push(13);
    text.push(10);
    push_headers(&mut text, &resp.headers);
    text.push(13);
    text.push(10);
    append_bytes(&mut text, resp.body.as_slice());
    assert(text@ =~= response_text(resp@, reason@));
    text
}

/// The reason phrase that the `http` crate holds for a status code, as
/// `StatusCode::canonical_reason` returns it; `None` for a code outside
/// `100..=999` and for one without a registered phrase.
pub uninterp spec fn canonical_reason(code: u16) -> Option<Seq<u8>>;

/// Looks up the canonical reason phrase of a status code with
/// `hyper::StatusCode::from_u16` and `StatusCode::canonical_reason`.
///
/// Trusted: the result is the table entry named by [`canonical_reason`];
/// nothing is claimed about which codes have one.
#[verifier::external_body]
fn reason_phrase(code: u16) -> (reason: Option<Vec<u8>>)
    ensures
        match reason {
            Some(r) => canonical_reason(code) == Some(r@),
            None => canonical_reason(code) is None,
        },
{
    let status = hyper::StatusCode::from_u16(code).ok()?;
    status.canonical_reason().map(|r| r.as_bytes().to_vec())
}

/// Serialises a response to its HTTP/1.1 text with the canonical reason
/// phrase of its status, or gives `None` where the status has none.
pub fn create_response_text(resp: &HttpResponse) -> (text: Option<Vec<u8>>)
    ensures
        match canonical_reason(resp.status) {
            Some(reason) => text matches Some(t) && t@ == response_text(resp@, reason),
            None => text is None,
        },
{
    match reason_phrase(resp.status) {
        Some(reason) => Some(response_text_with_reason(resp, reason.as_slice())),
        None => None,
    }
}

/// `400 Bad Request`
pub open spec fn bad_request_body() -> Seq<u8> {
    seq![52u8, 48u8, 48u8, 32u8, 66u8, 97u8, 100u8, 32u8, 82u8, 101u8, 113u8, 117u8, 101u8, 115u8, 116u8]
}

/// `404 Service Not Found`
pub open spec fn not_found_body() -> Seq<u8> {
    seq![
        52u8, 48u8, 52u8, 32u8, 83u8, 101u8, 114u8, 118u8, 105u8, 99u8, 101u8, 32u8, 78u8, 111u8,
        116u8, 32u8, 70u8, 111u8, 117u8, 110u8, 100u8,
    ]
}

/// `502 Bad Gateway`
pub open spec fn bad_gateway_body() -> Seq<u8> {
    seq![53u8, 48u8, 50u8, 32u8, 66u8, 97u8, 100u8, 32u8, 71u8, 97u8, 116u8, 101u8, 119u8, 97u8, 121u8]
}

/// `500 Internal Server Error`
pub open spec fn internal_error_body() -> Seq<u8> {
    seq![
        53u8, 48u8, 48u8, 32u8, 73u8, 110u8, 116u8, 101u8, 114u8, 110u8, 97u8, 108u8, 32u8, 83u8,
        101u8, 114u8, 118u8, 101u8, 114u8, 32u8, 69u8, 114u8, 114u8, 111u8, 114u8,
    ]
}

/// A response made here rather than by an origin: HTTP/1.1, no headers.
pub open spec fn synthetic(status: u16, body: Seq<u8>) -> ResponseText {
    ResponseText { version: HttpVersion::Http11, status, headers: Seq::empty(), body }
}

/// The `400` made here.
pub open spec fn bad_request_text() -> ResponseText {
    synthetic(400, bad_request_body())
}

/// The `404` made here for a service that is not registered.
pub open spec fn not_found_text() -> ResponseText {
    synthetic(404, not_found_body())
}

/// The `502` made here.
pub open spec fn bad_gateway_text() -> ResponseText {
    synthetic(502, bad_gateway_body())
}

/// The `500` made here.
pub open spec fn internal_error_text() -> ResponseText {
    synthetic(500, internal_error_body())
}

impl HttpResponse {
    /// A header-less HTTP/1.1 response with the given status and body.
    pub fn synthetic(status: u16, body: Vec<u8>) -> (resp: HttpResponse)
        ensures
            resp@ == synthetic(status, body@),
    {
        let resp = HttpResponse { version: HttpVersion::Http11, status, headers: Vec::new(), body };
        assert(resp@.headers =~= Seq::empty());
        resp
    }

    /// `400`, body `400 Bad Request`.
    pub fn bad_request() -> (resp: HttpResponse)
        ensures
            resp@ == bad_request_text(),
    {
        let body: Vec<u8> = vec![
            52u8, 48u8, 48u8, 32u8, 66u8, 97u8, 100u8, 32u8, 82u8, 101u8, 113u8, 117u8, 101u8, 115u8, 116u8,
        ];
        assert(body@ =~= bad_request_body());
        HttpResponse::synthetic(400, body)
    }

    /// `404`, body `404 Service Not Found`.
    pub fn not_found() -> (resp: HttpResponse)
        ensures
            resp@ == not_found_text(),
    {
        let body: Vec<u8> = vec![
            52u8, 48u8, 52u8, 32u8, 83u8, 101u8, 114u8, 118u8, 105u8, 99u8, 101u8, 32u8, 78u8, 111u8,
            116u8, 32u8, 70u8, 111u8, 117u8, 110u8, 100u8,
        ];
        assert(body@ =~= not_found_body());
        HttpResponse::synthetic(404, body)
    }

    /// `502`, body `502 Bad Gateway`.
    pub fn bad_gateway() -> (resp: HttpResponse)
        ensures
            resp@ == bad_gateway_text(),
    {
        let body: Vec<u8> = vec![
            53u8, 48u8, 50u8, 32u8, 66u8, 97u8, 100u8, 32u8, 71u8, 97u8, 116u8, 101u8, 119u8, 97u8, 121u8,
        ];
        assert(body@ =~= bad_gateway_body());
        HttpResponse::synthetic(502, body)
    }

    /// `500`, body `500 Internal Server Error`.
    pub fn internal_error() -> (resp: HttpResponse)
        ensures
            resp@ == internal_error_text(),
    {
        let body: Vec<u8> = vec![
            53u8, 48u8, 48u8, 32u8, 73u8, 110u8, 116u8, 101u8, 114u8, 110u8, 97u8, 108u8, 32u8, 83u8,
            101u8, 114u8, 118u8, 101u8, 114u8, 32u8, 69u8, 114u8, 114u8, 111u8, 114u8,
        ];
        assert(body@ =~= internal_error_body());
        HttpResponse::synthetic(500, body)
    }
}

} // verus!
