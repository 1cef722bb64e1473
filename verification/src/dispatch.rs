//! The request dispatcher: what to do with a request that the public
//! listener received.
//!
//! A request whose `Host` is the root domain itself is for the admin
//! surface, whose one route, `POST /start`, registers a new session under
//! a fresh id. Any other request is a tenant's and goes to the service
//! manager.

use vstd::prelude::*;
use crate::bytes::bytes_eq;
use crate::keygen::{is_phonetic_key, phonetic_key_generator};
use crate::message::{HttpRequest, HttpResponse, RequestText, internal_error_text, synthetic};
use crate::route::{find_host, host_of};

verus! {

/// How many ids are tried before a registration is given up.
pub const MAX_REGISTRATION_ATTEMPTS: usize = 8;

/// Whose request it is.
#[derive(Clone, Copy, Debug, PartialEq, Eq, Structural)]
pub enum Incoming {
    /// For the admin surface.
    Admin,
    /// For a registered service.
    Tenant,
}

/// The next step of an admin request.
#[derive(Clone, Debug, PartialEq, Eq)]
pub enum AdminStep {
    /// Ask the service manager to register a session under `service_id`;
    /// this is attempt number `attempt`, counted from one.
    Register { service_id: Vec<u8>, attempt: usize },
    /// Answer the caller.
    Reply(HttpResponse),
}

/// `POST`
pub open spec fn post_method() -> Seq<u8> {
    seq![80u8, 79u8, 83u8, 84u8]
}

/// `/start`
pub open spec fn start_path() -> Seq<u8> {
    seq![47u8, 115u8, 116u8, 97u8, 114u8, 116u8]
}

/// `Hello World`, the body of the admin surface's `404`.
pub open spec fn hello_body() -> Seq<u8> {
    seq![72u8, 101u8, 108u8, 108u8, 111u8, 32u8, 87u8, 111u8, 114u8, 108u8, 100u8]
}

/// Whether a method and path name the registration route.
pub open spec fn is_start(method: Seq<u8>, path: Seq<u8>) -> bool {
    method == post_method() && path == start_path()
}

/// Whose request `r` is, under the root domain `domain`.
pub open spec fn incoming_of(r: RequestText, domain: Seq<u8>) -> Incoming {
    if host_of(r) == Some(domain) {
        Incoming::Admin
    } else {
        Incoming::Tenant
    }
}

/// Classifies a request by its `Host` header.
///
/// A request without a `Host` header is a tenant's; the service manager
/// answers it with `400`.
pub fn handle_incoming_request(req: &HttpRequest, domain: &[u8]) -> (kind: Incoming)
    ensures
        kind == incoming_of(req@, domain@),
{
    match find_host(req) {
        Some(i) => {
            if bytes_eq(req.headers[i].value.as_slice(), domain) {
                Incoming::Admin
            } else {
                Incoming::Tenant
            }
        },
        None => Incoming::Tenant,
    }
}

/// Starts an admin request, given its method and the path of its target.
///
/// `POST /start` begins a registration with a freshly drawn id; anything
/// else is answered with `404`.
pub fn handle_root_request(method: &[u8], path: &[u8]) -> (step: AdminStep)
    ensures
        match step {
            AdminStep::Register { service_id, attempt } => is_start(method@, path@) && attempt == 1
                && is_phonetic_key(service_id@),
            AdminStep::Reply(response) => !is_start(method@, path@) && response@ == synthetic(
                404,
                hello_body(),
            ),
        },
{
    let post: Vec<u8> = vec![80u8, 79u8, 83u8, 84u8];
    let start: Vec<u8> = vec![47u8, 115u8, 116u8, 97u8, 114u8, 116u8];
    assert(post@ =~= post_method());
    assert(start@ =~= start_path());
    if bytes_eq(method, post.as_slice()) && bytes_eq(path, start.as_slice()) {
        AdminStep::Register { service_id: phonetic_key_generator(), attempt: 1 }
    } else {
        let body: Vec<u8> = vec![72u8, 101u8, 108u8, 108u8, 111u8, 32u8, 87u8, 111u8, 114u8, 108u8, 100u8];
        assert(body@ =~= hello_body());
        AdminStep::Reply(HttpResponse::synthetic(404, body))
    }
}

/// Continues a registration once the service manager has answered
/// attempt number `attempt` for `service_id`.
///
/// An accepted id is sent to the caller as the body of a `200`. A refused
/// one is replaced by a freshly drawn id, until
/// [`MAX_REGISTRATION_ATTEMPTS`] attempts have been made; then the caller
/// gets `500`.
pub fn registration_outcome(service_id: Vec<u8>, attempt: usize, accepted: bool) -> (step: AdminStep)
    ensures
        match step {
            AdminStep::Reply(response) => if accepted {
                response@ == synthetic(200, service_id@)
            } else {
                attempt >= MAX_REGISTRATION_ATTEMPTS && response@ == internal_error_text()
            },
            AdminStep::Register { service_id: next, attempt: n } => !accepted && attempt
                < MAX_REGISTRATION_ATTEMPTS && n == attempt + 1 && is_phonetic_key(next@),
        },
{
    if accepted {
        AdminStep::Reply(HttpResponse::synthetic(200, service_id))
    } else if attempt >= MAX_REGISTRATION_ATTEMPTS {
        AdminStep::Reply(HttpResponse::internal_error())
    } else {
        AdminStep::Register { service_id: phonetic_key_generator(), attempt: attempt + 1 }
    }
}

} // verus!
