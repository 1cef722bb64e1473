//! Addressing: from a request's `Host` header to a service id, and from
//! an agent's handshake to the id it claims.

use vstd::prelude::*;
use vstd::utf8::valid_utf8;
use crate::bytes::{bytes_eq, copy_range, ends_with};
use crate::message::{Header, HeaderText, HttpRequest, RequestText, headers_text};
use crate::wire::{find_nul, nul_position};

verus! {

/// An ASCII letter in lower case; any other byte unchanged.
pub open spec fn lower(b: u8) -> u8 {
    if 65 <= b <= 90 {
        (b + 32) as u8
    } else {
        b
    }
}

/// Equality of header names, which ignores ASCII case.
pub open spec fn same_name(a: Seq<u8>, b: Seq<u8>) -> bool {
    a.len() == b.len() && forall|i: int| 0 <= i < a.len() ==> lower(#[trigger] a[i]) == lower(b[i])
}

/// `host`
pub open spec fn host_name() -> Seq<u8> {
    seq![104u8, 111u8, 115u8, 116u8]
}

/// Index of the first field of `hs` called `name`, or `hs.len()`.
pub open spec fn named_position(hs: Seq<HeaderText>, name: Seq<u8>) -> int
    decreases hs.len(),
{
    if hs.len() == 0 || same_name(hs[0].name, name) {
        0
    } else {
        1 + named_position(hs.drop_first(), name)
    }
}

/// The value of the first field called `name`.
pub open spec fn header_value(hs: Seq<HeaderText>, name: Seq<u8>) -> Option<Seq<u8>> {
    let p = named_position(hs, name);
    if p < hs.len() {
        Some(hs[p].value)
    } else {
        None
    }
}

/// The value of a request's `Host` header.
pub open spec fn host_of(r: RequestText) -> Option<Seq<u8>> {
    header_value(r.headers, host_name())
}

/// The service id that a host names under a root domain: the host
/// without a trailing `.<domain>`, or the whole host if it has none.
pub open spec fn service_id_of(host: Seq<u8>, domain: Seq<u8>) -> Seq<u8> {
    let suffix = seq![46u8] + domain;
    if ends_with(host, suffix) {
        host.subrange(0, host.len() - suffix.len())
    } else {
        host
    }
}

/// The service a request is for: `None` where the request has no `Host`
/// header or its value is not UTF-8.
pub open spec fn target_of(r: RequestText, domain: Seq<u8>) -> Option<Seq<u8>> {
    match host_of(r) {
        Some(host) => if valid_utf8(host) {
            Some(service_id_of(host, domain))
        } else {
            None
        },
        None => None,
    }
}

/// A lossy UTF-8 reading of `bytes`, re-encoded: what
/// `String::from_utf8_lossy` makes of them, as bytes.
pub uninterp spec fn utf8_lossy(bytes: Seq<u8>) -> Seq<u8>;

/// The id claimed by a handshake: the bytes before the first NUL, or all
/// bytes received if the stream ended without one; `None` while neither
/// has happened.
pub open spec fn handshake_prefix(received: Seq<u8>, ended: bool) -> Option<Seq<u8>> {
    let p = nul_position(received);
    if p < received.len() || ended {
        Some(received.subrange(0, p))
    } else {
        None
    }
}

proof fn lemma_named_position(hs: Seq<HeaderText>, name: Seq<u8>)
    ensures
        0 <= named_position(hs, name) <= hs.len(),
        forall|j: int| 0 <= j < named_position(hs, name) ==> !same_name(hs[j].name, name),
        named_position(hs, name) < hs.len() ==> same_name(hs[named_position(hs, name)].name, name),
    decreases hs.len(),
{
    if hs.len() == 0 || same_name(hs[0].name, name) {
    } else {
        let t = hs.drop_first();
        lemma_named_position(t, name);
        assert forall|j: int| 0 <= j < named_position(hs, name) implies !same_name(
            hs[j].name,
            name,
        ) by {
            if j > 0 {
                assert(hs[j] == t[j - 1]);
            }
        }
        if named_position(hs, name) < hs.len() {
            assert(hs[named_position(hs, name)] == t[named_position(t, name)]);
        }
    }
}

proof fn lemma_named_position_is(hs: Seq<HeaderText>, name: Seq<u8>, k: int)
    requires
        0 <= k <= hs.len(),
        forall|j: int| 0 <= j < k ==> !same_name(hs[j].name, name),
        k < hs.len() ==> same_name(hs[k].name, name),
    ensures
        named_position(hs, name) == k,
{
    lemma_named_position(hs, name);
}

fn lower_byte(b: u8) -> (r: u8)
    ensures
        r == lower(b),
{
    if 65 <= b && b <= 90 {
        b + 32
    } else {
        b
    }
}

/// Whether two header names are the same, ignoring ASCII case.
pub fn names_match(a: &[u8], b: &[u8]) -> (same: bool)
    ensures
        same == same_name(a@, b@),
{
    if a.len() != b.len() {
        return false;
    }
    let n: usize = a.len();
    let mut i: usize = 0;
    while i < n
        invariant
            i <= n,
            n == a@.len(),
            n == b@.len(),
            forall|j: int| 0 <= j < i ==> lower(#[trigger] a@[j]) == lower(b@[j]),
        decreases n - i,
    {
        if lower_byte(a[i]) != lower_byte(b[i]) {
            return false;
        }
        i = i + 1;
    }
    true
}

/// Finds the first field called `name`.
pub fn find_header(headers: &Vec<Header>, name: &[u8]) -> (at: Option<usize>)
    ensures
        match at {
            Some(i) => i < headers@.len() && i == named_position(headers_text(headers@), name@),
            None => named_position(headers_text(headers@), name@) == headers@.len(),
        },
{
    let n: usize = headers.len();
    let ghost all = headers_text(headers@);
    let mut i: usize = 0;
    while i < n
        invariant
            i <= n,
            n == headers@.len(),
            all == headers_text(headers@),
            forall|j: int| 0 <= j < i ==> !same_name(all[j].name, name@),
        decreases n - i,
    {
        if names_match(headers[i].name.as_slice(), name) {
            proof {
                lemma_named_position_is(all, name@, i as int);
            }
            return Some(i);
        }
        i = i + 1;
    }
    proof {
        lemma_named_position_is(all, name@, n as int);
    }
    None
}

/// The index of a request's `Host` header.
pub fn find_host(req: &HttpRequest) -> (at: Option<usize>)
    ensures
        match at {
            Some(i) => i < req.headers@.len() && host_of(req@) == Some(req.headers@[i as int].value@),
            None => host_of(req@) is None,
        },
{
    let name: Vec<u8> = vec![104u8, 111u8, 115u8, 116u8];
    assert(name@ =~= host_name());
    find_header(&req.headers, name.as_slice())
}

/// Strips a trailing `.<domain>` from `host`.
pub fn resolve_service_id(host: &[u8], domain: &[u8]) -> (id: Vec<u8>)
    ensures
        id@ == service_id_of(host@, domain@),
{
    let ghost suffix = seq![46u8] + domain@;
    let h: usize = host.len();
    let d: usize = domain.len();
    if d < h {
        let cut: usize = h - d - 1;
        let tail: Vec<u8> = copy_range(host, cut + 1, h);
        proof {
            let end = host@.subrange(h - suffix.len(), h as int);
            assert(end.len() == suffix.len());
            assert(end[0] == host@[cut as int]);
            assert(suffix[0] == 46u8);
            assert(tail@ =~= end.subrange(1, end.len() as int));
            assert(domain@ =~= suffix.subrange(1, suffix.len() as int));
            if host@[cut as int] == 46u8 && tail@ == domain@ {
                assert(end =~= suffix);
            }
        }
        if host[cut] == 46 && bytes_eq(tail.as_slice(), domain) {
            return copy_range(host, 0, cut);
        }
    }
    let whole: Vec<u8> = copy_range(host, 0, h);
    assert(whole@ =~= host@);
    whole
}

/// Tells whether `bytes` are valid UTF-8, with `std::str::from_utf8`.
///
/// Trusted: the call succeeds exactly on well-formed UTF-8.
#[verifier::external_body]
fn is_utf8(bytes: &[u8]) -> (ok: bool)
    ensures
        ok == valid_utf8(bytes@),
{
    std::str::from_utf8(bytes).is_ok()
}

/// Reads `bytes` as UTF-8 with `String::from_utf8_lossy`, which puts
/// U+FFFD in place of each malformed sequence, and gives the text's bytes.
///
/// Trusted: the result is the function of the input named by
/// [`utf8_lossy`], and well-formed input comes back unchanged.
#[verifier::external_body]
fn lossy_bytes(bytes: &[u8]) -> (text: Vec<u8>)
    ensures
        text@ == utf8_lossy(bytes@),
        valid_utf8(bytes@) ==> text@ == bytes@,
{
    String::from_utf8_lossy(bytes).into_owned().into_bytes()
}

/// The service a request is addressed to under the root domain `domain`.
pub fn request_target(req: &HttpRequest, domain: &[u8]) -> (target: Option<Vec<u8>>)
    ensures
        match target_of(req@, domain@) {
            Some(id) => target matches Some(t) && t@ == id,
            None => target is None,
        },
{
    match find_host(req) {
        None => None,
        Some(i) => {
            let host: &[u8] = req.headers[i].value.as_slice();
            if is_utf8(host) {
                Some(resolve_service_id(host, domain))
            } else {
                None
            }
        },
    }
}

/// The bytes of a handshake before its NUL, once the NUL has arrived or
/// the stream has ended.
pub fn handshake_bytes(received: &[u8], ended: bool) -> (id: Option<Vec<u8>>)
    ensures
        match handshake_prefix(received@, ended) {
            Some(p) => id matches Some(v) && v@ == p,
            None => id is None,
        },
{
    let p: usize = find_nul(received);
    if p < received.len() || ended {
        Some(copy_range(received, 0, p))
    } else {
        None
    }
}

/// Reads an agent's handshake from what its stream has delivered so far.
///
/// The claimed id is the lossy UTF-8 reading of the bytes before the
/// first NUL, or of everything received if the stream ended first.
/// `None` means more bytes are needed.
pub fn socket_manager_read(received: &[u8], ended: bool) -> (id: Option<Vec<u8>>)
    ensures
        match handshake_prefix(received@, ended) {
            Some(p) => id matches Some(v) && v@ == utf8_lossy(p) && (valid_utf8(p) ==> v@ == p),
            None => id is None,
        },
{
    match handshake_bytes(received, ended) {
        Some(raw) => Some(lossy_bytes(raw.as_slice())),
        None => None,
    }
}

/// The handshake an agent sends: its service id, then NUL.
pub fn handshake_frame(service_id: &[u8]) -> (frame: Vec<u8>)
    ensures
        frame@ == service_id@.push(0u8),
{
    crate::wire::encode_request_frame(service_id)
}

} // verus!
