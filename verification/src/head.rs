//! Reading the head of an HTTP/1.1 message.
//!
//! The head grammar itself is `httparse`'s. This module asks it for the
//! head of a buffer, and turns what it reports, together with the bytes
//! after the head, into a message.

use vstd::prelude::*;
use vstd::slice::slice_to_vec;
use crate::bytes::copy_range;
use crate::message::{Header, HeaderText, HttpResponse, HttpVersion, ResponseText, headers_text};

verus! {

/// How many header fields a head may hold.
pub const MAX_HEADERS: usize = 64;

/// How far a head parse got.
#[derive(Clone, Copy, Debug, PartialEq, Eq, Structural)]
pub enum HeadStatus {
    /// The head is complete and this many bytes long.
    Complete(usize),
    /// The buffer ends before the head does.
    Partial,
    /// The buffer does not start with a well-formed head.
    Invalid,
}

/// Why a buffer could not be read as a message.
#[derive(Clone, Copy, Debug, PartialEq, Eq, Structural)]
pub enum HeadError {
    /// The head is not complete.
    Partial,
    /// The head is malformed, holds too many fields, or names a status
    /// code outside `100..=999`.
    Invalid,
}

/// What the parser reports of a response head.
#[derive(Clone, Debug, PartialEq, Eq)]
pub struct ResponseHead {
    pub status: HeadStatus,
    /// The minor version: `1` for HTTP/1.1.
    pub version: Option<u8>,
    pub code: Option<u16>,
    pub fields: Vec<Header>,
}

/// A reported response head as plain sequences.
pub struct ResponseHeadText {
    pub status: HeadStatus,
    pub version: Option<u8>,
    pub code: Option<u16>,
    pub fields: Seq<HeaderText>,
}

impl View for ResponseHead {
    type V = ResponseHeadText;

    open spec fn view(&self) -> ResponseHeadText {
        ResponseHeadText {
            status: self.status,
            version: self.version,
            code: self.code,
            fields: headers_text(self.fields@),
        }
    }
}

/// What the parser reports of a request head.
#[derive(Clone, Debug, PartialEq, Eq)]
pub struct RequestHead {
    pub status: HeadStatus,
    pub method: Option<Vec<u8>>,
    pub path: Option<Vec<u8>>,
    /// The minor version: `1` for HTTP/1.1.
    pub version: Option<u8>,
    pub fields: Vec<Header>,
}

/// A reported request head as plain sequences.
pub struct RequestHeadText {
    pub status: HeadStatus,
    pub method: Option<Seq<u8>>,
    pub path: Option<Seq<u8>>,
    pub version: Option<u8>,
    pub fields: Seq<HeaderText>,
}

/// The bytes of an optional byte string.
pub open spec fn option_bytes(o: Option<Vec<u8>>) -> Option<Seq<u8>> {
    match o {
        Some(v) => Some(v@),
        None => None,
    }
}

impl View for RequestHead {
    type V = RequestHeadText;

    open spec fn view(&self) -> RequestHeadText {
        RequestHeadText {
            status: self.status,
            method: option_bytes(self.method),
            path: option_bytes(self.path),
            version: self.version,
            fields: headers_text(self.fields@),
        }
    }
}

/// What `httparse::Response::parse` reports of `buf` when given `slots`
/// header slots: its status and the response's fields after the call.
pub uninterp spec fn httparse_response(buf: Seq<u8>, slots: nat) -> ResponseHeadText;

/// What `httparse::Request::parse` reports of `buf` when given `slots`
/// header slots: its status and the request's fields after the call.
pub uninterp spec fn httparse_request(buf: Seq<u8>, slots: nat) -> RequestHeadText;

/// Runs `httparse::Response::parse` on `buf` with `slots` empty header
/// slots and copies out its status and the response's fields as the call
/// left them. After a complete parse the fields are the parsed headers;
/// otherwise they are the slots as they were.
///
/// Trusted: the result is a function of the arguments, named by
/// [`httparse_response`]. Nothing else is claimed of it.
#[verifier::external_body]
fn parse_response_head(buf: &[u8], slots: usize) -> (head: ResponseHead)
    requires
        slots <= MAX_HEADERS,
    ensures
        head@ == httparse_response(buf@, slots as nat),
{
    let mut space = vec![httparse::EMPTY_HEADER; slots];
    let mut resp = httparse::Response::new(&mut space);
    let status = match resp.parse(buf) {
        Ok(httparse::Status::Complete(n)) => HeadStatus::Complete(n),
        Ok(httparse::Status::Partial) => HeadStatus::Partial,
        Err(_) => HeadStatus::Invalid,
    };
    let fields = resp.headers.iter().map(
        |h| Header { name: h.name.as_bytes().to_vec(), value: h.value.to_vec() },
    ).collect();
    ResponseHead { status, version: resp.version, code: resp.code, fields }
}

/// Runs `httparse::Request::parse` on `buf` with `slots` empty header
/// slots and copies out its status and the request's fields as the call
/// left them. After a complete parse the fields are the parsed headers;
/// otherwise they are the slots as they were.
///
/// Trusted: the result is a function of the arguments, named by
/// [`httparse_request`]. Nothing else is claimed of it.
#[verifier::external_body]
pub(crate) fn parse_request_head(buf: &[u8], slots: usize) -> (head: RequestHead)
    requires
        slots <= MAX_HEADERS,
    ensures
        head@ == httparse_request(buf@, slots as nat),
{
    let mut space = vec![httparse::EMPTY_HEADER; slots];
    let mut req = httparse::Request::new(&mut space);
    let status = match req.parse(buf) {
        Ok(httparse::Status::Complete(n)) => HeadStatus::Complete(n),
        Ok(httparse::Status::Partial) => HeadStatus::Partial,
        Err(_) => HeadStatus::Invalid,
    };
    let fields = req.headers.iter().map(
        |h| Header { name: h.name.as_bytes().to_vec(), value: h.value.to_vec() },
    ).collect();
    let method = req.method.map(|m| m.as_bytes().to_vec());
    let path = req.path.map(|p| p.as_bytes().to_vec());
    RequestHead { status, method, path, version: req.version, fields }
}

/// An unused header slot: empty name and empty value.
pub open spec fn is_blank(h: HeaderText) -> bool {
    h.name.len() == 0 && h.value.len() == 0
}

/// The fields of a list that are not blank, in order.
pub open spec fn present_fields(fields: Seq<HeaderText>) -> Seq<HeaderText>
    decreases fields.len(),
{
    if fields.len() == 0 {
        Seq::empty()
    } else if is_blank(fields.last()) {
        present_fields(fields.drop_last())
    } else {
        present_fields(fields.drop_last()).push(fields.last())
    }
}

/// The version a minor version number stands for: `1` is HTTP/1.1,
/// anything else HTTP/1.0.
pub open spec fn version_of(minor: u8) -> HttpVersion {
    if minor == 1 {
        HttpVersion::Http11
    } else {
        HttpVersion::Http10
    }
}

/// The response that a reported head and the payload it was read from
/// make up.
pub open spec fn response_of(head: ResponseHeadText, payload: Seq<u8>) -> Result<
    ResponseText,
    HeadError,
> {
    match head.status {
        HeadStatus::Partial => Err(HeadError::Partial),
        HeadStatus::Invalid => Err(HeadError::Invalid),
        HeadStatus::Complete(n) => if n <= payload.len() && head.version is Some
            && head.code is Some && 100 <= head.code->0 < 1000 {
            Ok(
                ResponseText {
                    version: version_of(head.version->0),
                    status: head.code->0,
                    headers: present_fields(head.fields),
                    body: payload.subrange(n as int, payload.len() as int),
                },
            )
        } else {
            Err(HeadError::Invalid)
        },
    }
}

/// Copies the fields of a list that are not blank, in order.
pub fn keep_present(fields: &Vec<Header>) -> (kept: Vec<Header>)
    ensures
        headers_text(kept@) == present_fields(headers_text(fields@)),
{
    let ghost all = headers_text(fields@);
    let mut kept: Vec<Header> = Vec::new();
    let n: usize = fields.len();
    let mut i: usize = 0;
    assert(headers_text(kept@) =~= present_fields(all.subrange(0, 0)));
    while i < n
        invariant
            i <= n,
            n == fields@.len(),
            all == headers_text(fields@),
            headers_text(kept@) == present_fields(all.subrange(0, i as int)),
        decreases n - i,
    {
        let ghost kept_before = kept@;
        let h: &Header = &fields[i];
        proof {
            let upto = all.subrange(0, i + 1);
            assert(upto.drop_last() =~= all.subrange(0, i as int));
            assert(upto.last() == h@);
        }
        if h.name.len() == 0 && h.value.len() == 0 {
        } else {
            let copy = Header { name: slice_to_vec(h.name.as_slice()), value: slice_to_vec(h.value.as_slice()) };
            kept.push(copy);
            assert(headers_text(kept@) =~= headers_text(kept_before).push(h@));
        }
        i = i + 1;
    }
    assert(all.subrange(0, n as int) =~= all);
    kept
}

/// Builds the response that a reported head and its payload make up.
///
/// The body is everything after the head. A head that is complete but
/// reports a length beyond the payload, no version, no status code, or a
/// status code outside `100..=999` is invalid.
pub fn response_from_head(head: ResponseHead, payload: &[u8]) -> (r: Result<HttpResponse, HeadError>)
    ensures
        match response_of(head@, payload@) {
            Ok(text) => r matches Ok(resp) && resp@ == text,
            Err(e) => r matches Err(f) && f == e,
        },
{
    let n: usize = match head.status {
        HeadStatus::Partial => {
            return Err(HeadError::Partial);
        },
        HeadStatus::Invalid => {
            return Err(HeadError::Invalid);
        },
        HeadStatus::Complete(n) => n,
    };
    if n > payload.len() {
        return Err(HeadError::Invalid);
    }
    let minor: u8 = match head.version {
        Some(v) => v,
        None => {
            return Err(HeadError::Invalid);
        },
    };
    let code: u16 = match head.code {
        Some(c) => c,
        None => {
            return Err(HeadError::Invalid);
        },
    };
    if code < 100 || code >= 1000 {
        return Err(HeadError::Invalid);
    }
    let version: HttpVersion = if minor == 1 { HttpVersion::Http11 } else { HttpVersion::Http10 };
    let headers: Vec<Header> = keep_present(&head.fields);
    let body: Vec<u8> = copy_range(payload, n, payload.len());
    Ok(HttpResponse { version, status: code, headers, body })
}

/// Reads a response payload: its head as `httparse` reports it with
/// [`MAX_HEADERS`] slots, the rest as the body.
pub fn decode_response(payload: &[u8]) -> (r: Result<HttpResponse, HeadError>)
    ensures
        match response_of(httparse_response(payload@, MAX_HEADERS as nat), payload@) {
            Ok(text) => r matches Ok(resp) && resp@ == text,
            Err(e) => r matches Err(f) && f == e,
        },
{
    let head: ResponseHead = parse_response_head(payload, MAX_HEADERS);
    response_from_head(head, payload)
}

} // verus!
