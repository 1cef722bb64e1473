//! The agent's side of the control stream: from a request frame to the
//! request for the origin, and from the origin's response to a response
//! frame.

use vstd::prelude::*;
use crate::bytes::{append_bytes, copy_range};
use crate::head::{
    HeadError, HeadStatus, MAX_HEADERS, RequestHead, RequestHeadText, httparse_request, keep_present,
    parse_request_head, present_fields,
};
use crate::message::{
    Header, HttpRequest, HttpResponse, RequestText, canonical_reason, create_response_text,
    response_text,
};
use crate::wire::{encode_response_frame, response_frame};

verus! {

/// The address of a path at the origin: `<url>:<port><path>`.
pub open spec fn origin_url(forwarding_url: Seq<u8>, forwarding_port: Seq<u8>, path: Seq<u8>) -> Seq<u8> {
    forwarding_url + seq![58u8] + forwarding_port + path
}

/// The request for the origin that a reported head and the text it was
/// read from make up. Its target is the full address at the origin.
pub open spec fn origin_request_of(
    head: RequestHeadText,
    text: Seq<u8>,
    forwarding_url: Seq<u8>,
    forwarding_port: Seq<u8>,
) -> Result<RequestText, HeadError> {
    match head.status {
        HeadStatus::Partial => Err(HeadError::Partial),
        HeadStatus::Invalid => Err(HeadError::Invalid),
        HeadStatus::Complete(n) => if n <= text.len() && head.method is Some && head.path is Some {
            Ok(
                RequestText {
                    method: head.method->0,
                    target: origin_url(forwarding_url, forwarding_port, head.path->0),
                    headers: present_fields(head.fields),
                    body: text.subrange(n as int, text.len() as int),
                },
            )
        } else {
            Err(HeadError::Invalid)
        },
    }
}

/// Builds the request for the origin from a reported head.
///
/// The body is everything after the head. A head that is complete but
/// reports a length beyond the text, no method or no path is invalid.
pub fn request_from_head(
    head: RequestHead,
    text: &[u8],
    forwarding_url: &[u8],
    forwarding_port: &[u8],
) -> (r: Result<HttpRequest, HeadError>)
    ensures
        match origin_request_of(head@, text@, forwarding_url@, forwarding_port@) {
            Ok(want) => r matches Ok(req) && req@ == want,
            Err(e) => r matches Err(f) && f == e,
        },
{
    let n: usize = match head.status {
        HeadStatus::Partial => {
            return Err(HeadError::Partial);
        },
        HeadStatus::Invalid => {
            return Err(HeadError::Invalid);
        },
        HeadStatus::Complete(n) => n,
    };
    if n > text.len() {
        return Err(HeadError::Invalid);
    }
    let headers: Vec<Header> = keep_present(&head.fields);
    let method: Vec<u8> = match head.method {
        Some(m) => m,
        None => {
            return Err(HeadError::Invalid);
        },
    };
    let path: Vec<u8> = match head.path {
        Some(p) => p,
        None => {
            return Err(HeadError::Invalid);
        },
    };
    let mut target: Vec<u8> = Vec::new();
    append_bytes(&mut target, forwarding_url);
    target.push(58);
    append_bytes(&mut target, forwarding_port);
    append_bytes(&mut target, path.as_slice());
    assert(target@ =~= origin_url(forwarding_url@, forwarding_port@, path@));
    let body: Vec<u8> = copy_range(text, n, text.len());
    Ok(HttpRequest { method, target, headers, body })
}

/// Reads the text of a request frame and addresses it to the origin at
/// `<forwarding_url>:<forwarding_port>`.
pub fn create_request(text: &[u8], forwarding_url: &[u8], forwarding_port: &[u8]) -> (r: Result<
    HttpRequest,
    HeadError,
>)
    ensures
        match origin_request_of(
            httparse_request(text@, MAX_HEADERS as nat),
            text@,
            forwarding_url@,
            forwarding_port@,
        ) {
            Ok(want) => r matches Ok(req) && req@ == want,
            Err(e) => r matches Err(f) && f == e,
        },
{
    let head: RequestHead = parse_request_head(text, MAX_HEADERS);
    request_from_head(head, text, forwarding_url, forwarding_port)
}

/// Frames the origin's response for the server, or gives `None` where
/// its status has no canonical reason phrase.
pub fn create_response_frame(resp: &HttpResponse) -> (frame: Option<Vec<u8>>)
    ensures
        match canonical_reason(resp.status) {
            Some(reason) => frame matches Some(f) && f@ == response_frame(
                response_text(resp@, reason),
            ),
            None => frame is None,
        },
{
    match create_response_text(resp) {
        Some(text) => Some(encode_response_frame(text.as_slice())),
        None => None,
    }
}

} // verus!
