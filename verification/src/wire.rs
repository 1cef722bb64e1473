//! Frame codec for the control stream.
//!
//! Server to agent: the HTTP/1.1 request text followed by one NUL byte.
//! Agent to server: the ASCII-decimal payload length, one NUL byte, then
//! exactly that many bytes of HTTP/1.1 response text.
//!
//! The request direction is delimiter-framed, so a request text that holds
//! a NUL byte ends its frame early and corrupts the stream. Nothing is
//! escaped; callers that may carry binary request bodies must not use this
//! framing for them.

use vstd::prelude::*;
use crate::bytes::{append_bytes, copy_range};

verus! {

/// Why a response frame's length prefix was refused.
#[derive(Clone, Copy, Debug, PartialEq, Eq, Structural)]
pub enum FrameError {
    /// The prefix is not an optional `+` followed by one or more digits.
    BadLength,
    /// The announced length is above the configured cap.
    TooLong,
}

/// What a receive buffer holds at its front.
#[derive(Clone, Debug, PartialEq, Eq)]
pub enum FrameStatus {
    /// No complete frame yet; the buffer is left as it was.
    Incomplete,
    /// One frame was taken off the front of the buffer.
    Ready(Vec<u8>),
    /// The buffer starts with a malformed frame; it is left as it was.
    Malformed(FrameError),
}

/// The mathematical reading of a receive buffer: the frame at its front
/// and what follows it.
pub enum FrameReading {
    Incomplete,
    Ready { payload: Seq<u8>, rest: Seq<u8> },
    Malformed(FrameError),
}

/// Index of the first NUL byte of `s`, or `s.len()` if it holds none.
pub open spec fn nul_position(s: Seq<u8>) -> int
    decreases s.len(),
{
    if s.len() == 0 || s[0] == 0u8 {
        0
    } else {
        1 + nul_position(s.drop_first())
    }
}

/// An ASCII decimal digit.
pub open spec fn is_digit(b: u8) -> bool {
    48u8 <= b <= 57u8
}

/// Whether every byte is a decimal digit.
pub open spec fn all_digits(s: Seq<u8>) -> bool {
    forall|i: int| 0 <= i < s.len() ==> is_digit(#[trigger] s[i])
}

/// The digits of a length prefix: the prefix without its optional `+`.
pub open spec fn prefix_digits(p: Seq<u8>) -> Seq<u8> {
    if p.len() > 0 && p[0] == 43u8 {
        p.drop_first()
    } else {
        p
    }
}

/// The number written by a sequence of decimal digits.
pub open spec fn decimal_value(s: Seq<u8>) -> nat
    decreases s.len(),
{
    if s.len() == 0 {
        0
    } else {
        decimal_value(s.drop_last()) * 10 + (s.last() - 48) as nat
    }
}

/// The shortest decimal writing of `n`.
pub open spec fn decimal_digits(n: nat) -> Seq<u8>
    decreases n,
{
    if n < 10 {
        seq![(48 + n) as u8]
    } else {
        decimal_digits(n / 10).push((48 + n % 10) as u8)
    }
}

/// The length announced by a prefix, under a cap.
pub open spec fn length_prefix(p: Seq<u8>, cap: nat) -> Result<nat, FrameError> {
    let d = prefix_digits(p);
    if d.len() == 0 || !all_digits(d) {
        Err(FrameError::BadLength)
    } else if decimal_value(d) > cap {
        Err(FrameError::TooLong)
    } else {
        Ok(decimal_value(d))
    }
}

/// A request frame: the text and its NUL sentinel.
pub open spec fn request_frame(text: Seq<u8>) -> Seq<u8> {
    text.push(0u8)
}

/// A response frame: decimal length, NUL, payload.
pub open spec fn response_frame(payload: Seq<u8>) -> Seq<u8> {
    decimal_digits(payload.len()).push(0u8) + payload
}

/// Reads a NUL-delimited frame off the front of `rx`.
pub open spec fn read_delimited(rx: Seq<u8>) -> FrameReading {
    let p = nul_position(rx);
    if p == rx.len() {
        FrameReading::Incomplete
    } else {
        FrameReading::Ready { payload: rx.subrange(0, p), rest: rx.subrange(p + 1, rx.len() as int) }
    }
}

/// Reads a length-prefixed frame off the front of `rx`.
pub open spec fn read_prefixed(rx: Seq<u8>, cap: nat) -> FrameReading {
    let p = nul_position(rx);
    if p == rx.len() {
        FrameReading::Incomplete
    } else {
        match length_prefix(rx.subrange(0, p), cap) {
            Err(e) => FrameReading::Malformed(e),
            Ok(n) => if rx.len() - p - 1 < n {
                FrameReading::Incomplete
            } else {
                FrameReading::Ready {
                    payload: rx.subrange(p + 1, p + 1 + n),
                    rest: rx.subrange(p + 1 + n, rx.len() as int),
                }
            },
        }
    }
}

impl FrameStatus {
    /// Whether this status, with the buffer before and after, is `reading`.
    pub open spec fn agrees(self, before: Seq<u8>, after: Seq<u8>, reading: FrameReading) -> bool {
        match reading {
            FrameReading::Incomplete => self is Incomplete && after == before,
            FrameReading::Malformed(e) => self == FrameStatus::Malformed(e) && after == before,
            FrameReading::Ready { payload, rest } => self matches FrameStatus::Ready(v) && v@ == payload
                && after == rest,
        }
    }
}

/// The first NUL lies within the sequence or at its end, no byte before
/// it is NUL, and the byte at it is.
pub proof fn lemma_nul_position(s: Seq<u8>)
    ensures
        0 <= nul_position(s) <= s.len(),
        forall|j: int| 0 <= j < nul_position(s) ==> s[j] != 0u8,
        nul_position(s) < s.len() ==> s[nul_position(s)] == 0u8,
    decreases s.len(),
{
    if s.len() == 0 || s[0] == 0u8 {
    } else {
        let t = s.drop_first();
        lemma_nul_position(t);
        assert forall|j: int| 0 <= j < nul_position(s) implies s[j] != 0u8 by {
            if j > 0 {
                assert(s[j] == t[j - 1]);
            }
        }
        if nul_position(s) < s.len() {
            assert(s[nul_position(s)] == t[nul_position(t)]);
        }
    }
}

/// The first NUL is where no earlier byte is NUL and the scan stops.
pub proof fn lemma_nul_position_is(s: Seq<u8>, k: int)
    requires
        0 <= k <= s.len(),
        forall|j: int| 0 <= j < k ==> s[j] != 0u8,
        k < s.len() ==> s[k] == 0u8,
    ensures
        nul_position(s) == k,
{
    lemma_nul_position(s);
    let p = nul_position(s);
    if p < k {
        assert(s[p] == 0u8);
    } else if p > k {
        assert(s[k] == 0u8);
    }
}

proof fn lemma_decimal_value_grows(s: Seq<u8>, i: int)
    requires
        0 <= i <= s.len(),
        all_digits(s),
    ensures
        decimal_value(s.subrange(0, i)) <= decimal_value(s),
    decreases s.len() - i,
{
    if i == s.len() {
        assert(s.subrange(0, i) =~= s);
    } else {
        let t = s.subrange(0, i + 1);
        assert(t.drop_last() =~= s.subrange(0, i));
        assert(is_digit(s[i]));
        assert(t.last() == s[i]);
        lemma_decimal_value_grows(s, i + 1);
    }
}

/// The decimal writing of a number is made of digits and reads back as
/// that number.
pub proof fn lemma_decimal_digits(n: nat)
    ensures
        decimal_digits(n).len() >= 1,
        all_digits(decimal_digits(n)),
        decimal_value(decimal_digits(n)) == n,
    decreases n,
{
    if n < 10 {
        let d = decimal_digits(n);
        assert(d.drop_last() =~= Seq::<u8>::empty());
        assert(decimal_value(d.drop_last()) == 0);
    } else {
        lemma_decimal_digits(n / 10);
        let h = decimal_digits(n / 10);
        let d = decimal_digits(n);
        assert(d.drop_last() =~= h);
        assert forall|i: int| 0 <= i < d.len() implies is_digit(#[trigger] d[i]) by {
            if i < h.len() {
                assert(d[i] == h[i]);
            }
        }
    }
}

/// Finds the first NUL byte of `buf`.
pub fn find_nul(buf: &[u8]) -> (p: usize)
    ensures
        p == nul_position(buf@),
        p <= buf@.len(),
{
    let n: usize = buf.len();
    let mut i: usize = 0;
    while i < n && buf[i] != 0
        invariant
            n == buf@.len(),
            i <= n,
            forall|j: int| 0 <= j < i ==> buf@[j] != 0u8,
        decreases n - i,
    {
        i = i + 1;
    }
    proof {
        lemma_nul_position_is(buf@, i as int);
    }
    i
}

/// Parses a response frame's length prefix: an optional `+`, then one or
/// more decimal digits, worth at most `cap`.
pub fn parse_length(prefix: &[u8], cap: usize) -> (r: Result<usize, FrameError>)
    ensures
        match length_prefix(prefix@, cap as nat) {
            Ok(n) => r == Ok::<usize, FrameError>(n as usize) && n <= cap,
            Err(e) => r == Err::<usize, FrameError>(e),
        },
{
    let n: usize = prefix.len();
    let start: usize = if n > 0 && prefix[0] == 43 { 1 } else { 0 };
    let ghost d = prefix_digits(prefix@);
    assert(d =~= prefix@.subrange(start as int, n as int));
    if start == n {
        return Err(FrameError::BadLength);
    }
    // A first pass settles well-formedness, so that an oversized but
    // malformed prefix is still reported as malformed.
    let mut i: usize = start;
    while i < n
        invariant
            start <= i <= n,
            n == prefix@.len(),
            d == prefix_digits(prefix@),
            d == prefix@.subrange(start as int, n as int),
            forall|j: int| 0 <= j < i - start ==> is_digit(#[trigger] d[j]),
        decreases n - i,
    {
        assert(d[i - start] == prefix@[i as int]);
        if prefix[i] < 48 || prefix[i] > 57 {
            return Err(FrameError::BadLength);
        }
        i = i + 1;
    }
    assert(all_digits(d));
    let mut value: usize = 0;
    i = start;
    while i < n
        invariant
            start <= i <= n,
            n == prefix@.len(),
            d == prefix_digits(prefix@),
            d == prefix@.subrange(start as int, n as int),
            all_digits(d),
            value == decimal_value(d.subrange(0, i - start)),
            value <= cap,
        decreases n - i,
    {
        let ghost t = d.subrange(0, i - start + 1);
        proof {
            assert(t.drop_last() =~= d.subrange(0, i - start));
            assert(d[i - start] == prefix@[i as int]);
            assert(t.last() == prefix@[i as int]);
            assert(is_digit(d[i - start]));
            lemma_decimal_value_grows(d, i - start + 1);
        }
        let digit: usize = (prefix[i] - 48) as usize;
        assert(decimal_value(t) == value * 10 + digit);
        if value > cap / 10 || digit > cap - value * 10 {
            assert(decimal_value(d) > cap);
            return Err(FrameError::TooLong);
        }
        value = value * 10 + digit;
        i = i + 1;
    }
    assert(d.subrange(0, n - start) =~= d);
    Ok(value)
}

/// Writes `n` in decimal at the end of `out`.
pub fn push_decimal(out: &mut Vec<u8>, n: usize)
    ensures
        final(out)@ == old(out)@ + decimal_digits(n as nat),
    decreases n,
{
    if n >= 10 {
        push_decimal(out, n / 10);
    }
    out.push(48 + (n % 10) as u8);
    assert(out@ =~= old(out)@ + decimal_digits(n as nat));
}

/// Frames a request text for the agent: the text, then the NUL sentinel.
pub fn encode_request_frame(text: &[u8]) -> (frame: Vec<u8>)
    ensures
        frame@ == request_frame(text@),
{
    let mut frame: Vec<u8> = Vec::new();
    append_bytes(&mut frame, text);
    frame.push(0);
    assert(frame@ =~= request_frame(text@));
    frame
}

/// Frames a response text for the server: length, NUL, payload.
pub fn encode_response_frame(payload: &[u8]) -> (frame: Vec<u8>)
    ensures
        frame@ == response_frame(payload@),
{
    let mut frame: Vec<u8> = Vec::new();
    push_decimal(&mut frame, payload.len());
    frame.push(0);
    append_bytes(&mut frame, payload);
    assert(frame@ =~= response_frame(payload@));
    frame
}

/// Takes a NUL-delimited frame off the front of `rx`, if one is complete.
pub fn take_delimited(rx: &mut Vec<u8>) -> (status: FrameStatus)
    ensures
        status.agrees(old(rx)@, final(rx)@, read_delimited(old(rx)@)),
{
    let p: usize = find_nul(rx.as_slice());
    if p == rx.len() {
        return FrameStatus::Incomplete;
    }
    let rest: Vec<u8> = rx.split_off(p + 1);
    rx.truncate(p);
    let payload: Vec<u8> = copy_range(rx.as_slice(), 0, p);
    assert(payload@ =~= old(rx)@.subrange(0, p as int));
    *rx = rest;
    FrameStatus::Ready(payload)
}

/// Takes a length-prefixed frame off the front of `rx`, if one is complete
/// and its announced length is at most `cap`.
pub fn take_prefixed(rx: &mut Vec<u8>, cap: usize) -> (status: FrameStatus)
    ensures
        status.agrees(old(rx)@, final(rx)@, read_prefixed(old(rx)@, cap as nat)),
{
    let p: usize = find_nul(rx.as_slice());
    if p == rx.len() {
        return FrameStatus::Incomplete;
    }
    let prefix: Vec<u8> = copy_range(rx.as_slice(), 0, p);
    let n: usize = match parse_length(prefix.as_slice(), cap) {
        Ok(n) => n,
        Err(e) => {
            return FrameStatus::Malformed(e);
        },
    };
    if rx.len() - p - 1 < n {
        return FrameStatus::Incomplete;
    }
    let payload: Vec<u8> = copy_range(rx.as_slice(), p + 1, p + 1 + n);
    let rest: Vec<u8> = rx.split_off(p + 1 + n);
    *rx = rest;
    FrameStatus::Ready(payload)
}

/// A request text that holds no NUL byte comes out of its frame as it
/// went in, and what follows the frame is left in the buffer.
pub proof fn request_frame_round_trip(text: Seq<u8>, rest: Seq<u8>)
    requires
        !text.contains(0u8),
    ensures
        read_delimited(request_frame(text) + rest) == (FrameReading::Ready { payload: text, rest }),
{
    let buf = request_frame(text) + rest;
    let k = text.len() as int;
    assert forall|j: int| 0 <= j < k implies buf[j] != 0u8 by {
        assert(buf[j] == text[j]);
        assert(text.contains(text[j]));
    }
    assert(buf[k] == 0u8);
    lemma_nul_position_is(buf, k);
    assert(buf.subrange(0, k) =~= text);
    assert(buf.subrange(k + 1, buf.len() as int) =~= rest);
}

/// A request frame is not read before its last byte has arrived.
pub proof fn request_frame_needs_all(text: Seq<u8>, k: int)
    requires
        !text.contains(0u8),
        0 <= k <= text.len(),
    ensures
        read_delimited(request_frame(text).subrange(0, k)) is Incomplete,
{
    let part = request_frame(text).subrange(0, k);
    assert forall|j: int| 0 <= j < k implies part[j] != 0u8 by {
        assert(part[j] == text[j]);
        assert(text.contains(text[j]));
    }
    lemma_nul_position_is(part, k);
}

/// A payload of any bytes, no longer than the cap, comes out of its
/// response frame as it went in, and what follows the frame is left in
/// the buffer.
pub proof fn response_frame_round_trip(payload: Seq<u8>, rest: Seq<u8>, cap: nat)
    requires
        payload.len() <= cap,
    ensures
        read_prefixed(response_frame(payload) + rest, cap) == (FrameReading::Ready { payload, rest }),
{
    let n = payload.len();
    let digits = decimal_digits(n);
    let buf = response_frame(payload) + rest;
    let k = digits.len() as int;
    lemma_decimal_digits(n);
    assert forall|j: int| 0 <= j < k implies buf[j] != 0u8 by {
        assert(buf[j] == digits[j]);
        assert(is_digit(digits[j]));
    }
    assert(buf[k] == 0u8);
    lemma_nul_position_is(buf, k);
    assert(buf.subrange(0, k) =~= digits);
    assert(is_digit(digits[0]));
    assert(prefix_digits(digits) == digits);
    assert(buf.subrange(k + 1, k + 1 + n) =~= payload);
    assert(buf.subrange(k + 1 + n, buf.len() as int) =~= rest);
}

/// A response frame is not read before its last byte has arrived.
pub proof fn response_frame_needs_all(payload: Seq<u8>, cap: nat, k: int)
    requires
        payload.len() <= cap,
        0 <= k < response_frame(payload).len(),
    ensures
        read_prefixed(response_frame(payload).subrange(0, k), cap) is Incomplete,
{
    let n = payload.len();
    let digits = decimal_digits(n);
    let frame = response_frame(payload);
    let part = frame.subrange(0, k);
    let d = digits.len() as int;
    lemma_decimal_digits(n);
    if k <= d {
        assert forall|j: int| 0 <= j < k implies part[j] != 0u8 by {
            assert(part[j] == digits[j]);
            assert(is_digit(digits[j]));
        }
        lemma_nul_position_is(part, k);
    } else {
        assert forall|j: int| 0 <= j < d implies part[j] != 0u8 by {
            assert(part[j] == digits[j]);
            assert(is_digit(digits[j]));
        }
        assert(part[d] == 0u8);
        lemma_nul_position_is(part, d);
        assert(part.subrange(0, d) =~= digits);
        assert(is_digit(digits[0]));
        assert(prefix_digits(digits) == digits);
    }
}

} // verus!
