//! What holds of every session and of the service manager, whatever
//! happens to them.

use vstd::prelude::*;
use crate::head::{MAX_HEADERS, httparse_response, response_of};
use crate::manager::{ManagerActionText, ManagerState, MessageText, manage};
use crate::message::{RequestText, ResponseText, bad_gateway_text, not_found_text, request_text};
use crate::route::{handshake_prefix, target_of};
use crate::session::{
    ActionText, Phase, SessionState, Waiting, closed, enqueue, fail, farewell, feed, initial,
    on_bytes, on_inbox_lost, on_request, on_stream, on_stream_lost, pump, pump_measure, rejections,
    shut_down, tickets_of, unreadable,
};
use crate::wire::{
    FrameReading, lemma_nul_position, read_delimited, read_prefixed, request_frame,
    request_frame_round_trip,
};

verus! {

/// Anything that can happen to a session.
pub enum SessionEvent {
    /// A control stream arrives in the inbox.
    Stream(u64),
    /// A request arrives in the inbox, with the ticket of its mailbox.
    Request(RequestText, u64),
    /// Bytes arrive from the agent.
    Bytes(Seq<u8>),
    /// The control stream ended or failed.
    StreamLost,
    /// The inbox was closed.
    InboxLost,
}

/// The state after an event, and the actions it calls for.
pub open spec fn step(s: SessionState, ev: SessionEvent) -> (SessionState, Seq<ActionText>) {
    match ev {
        SessionEvent::Stream(stream) => on_stream(s, stream),
        SessionEvent::Request(req, ticket) => on_request(s, req, ticket),
        SessionEvent::Bytes(bytes) => on_bytes(s, bytes),
        SessionEvent::StreamLost => on_stream_lost(s),
        SessionEvent::InboxLost => on_inbox_lost(s),
    }
}

/// The ticket an event brings, if it brings one.
pub open spec fn arriving(ev: SessionEvent) -> Seq<u64> {
    match ev {
        SessionEvent::Request(_, ticket) => seq![ticket],
        _ => Seq::empty(),
    }
}

/// A session at rest: a request waits only while another is on the
/// stream, and only a bound session has one on the stream.
pub open spec fn valid(s: SessionState) -> bool {
    &&& s.inflight is None ==> s.waiting.len() == 0
    &&& s.phase != Phase::Bound ==> s.inflight is None
}

/// The tickets that a list of actions answers, in order.
pub open spec fn answered(acts: Seq<ActionText>) -> Seq<u64>
    decreases acts.len(),
{
    if acts.len() == 0 {
        Seq::empty()
    } else {
        let rest = answered(acts.drop_first());
        match acts[0] {
            ActionText::Respond { ticket, .. } => seq![ticket] + rest,
            _ => rest,
        }
    }
}

/// Whether a list of actions keeps to one request on the stream at a
/// time, starting with the stream busy or free: a request frame is
/// written only to a free stream, which it makes busy, and the stream is
/// free again once a response has been handed out.
pub open spec fn in_turn(acts: Seq<ActionText>, busy: bool) -> bool
    decreases acts.len(),
{
    if acts.len() == 0 {
        true
    } else {
        match acts[0] {
            ActionText::Write { .. } => !busy && in_turn(acts.drop_first(), true),
            ActionText::Respond { .. } => in_turn(acts.drop_first(), false),
            _ => in_turn(acts.drop_first(), busy),
        }
    }
}

/// Whether the stream is busy after a list of actions, by the same
/// account.
pub open spec fn busy_after(acts: Seq<ActionText>, busy: bool) -> bool
    decreases acts.len(),
{
    if acts.len() == 0 {
        busy
    } else {
        match acts[0] {
            ActionText::Write { .. } => busy_after(acts.drop_first(), true),
            ActionText::Respond { .. } => busy_after(acts.drop_first(), false),
            _ => busy_after(acts.drop_first(), busy),
        }
    }
}

/// Whether a list of actions writes nothing to the stream.
pub open spec fn writes_nothing(acts: Seq<ActionText>) -> bool {
    forall|i: int| 0 <= i < acts.len() ==> !(#[trigger] acts[i] is Write)
}

proof fn lemma_answered_concat(a: Seq<ActionText>, b: Seq<ActionText>)
    ensures
        answered(a + b) == answered(a) + answered(b),
    decreases a.len(),
{
    if a.len() == 0 {
        assert(a + b =~= b);
        assert(answered(a) + answered(b) =~= answered(b));
    } else {
        assert((a + b).drop_first() =~= a.drop_first() + b);
        lemma_answered_concat(a.drop_first(), b);
        assert((a + b)[0] == a[0]);
        match a[0] {
            ActionText::Respond { ticket, .. } => {
                assert(seq![ticket] + (answered(a.drop_first()) + answered(b)) =~= (seq![ticket]
                    + answered(a.drop_first())) + answered(b));
            },
            _ => {},
        }
    }
}

proof fn lemma_answered_one(a: ActionText)
    ensures
        answered(seq![a]) == match a {
            ActionText::Respond { ticket, .. } => seq![ticket],
            _ => Seq::<u64>::empty(),
        },
{
    assert(seq![a].drop_first() =~= Seq::<ActionText>::empty());
    assert(answered(seq![a].drop_first()) =~= Seq::<u64>::empty());
    match a {
        ActionText::Respond { ticket, .. } => {
            assert(seq![ticket] + Seq::<u64>::empty() =~= seq![ticket]);
        },
        _ => {},
    }
}

spec fn waiting_tickets(w: Seq<Waiting>) -> Seq<u64> {
    Seq::new(w.len(), |i: int| w[i].ticket)
}

proof fn lemma_answered_rejections(w: Seq<Waiting>)
    ensures
        answered(rejections(w)) == waiting_tickets(w),
    decreases w.len(),
{
    if w.len() == 0 {
        assert(answered(rejections(w)) =~= waiting_tickets(w));
    } else {
        assert(rejections(w).drop_first() =~= rejections(w.drop_first()));
        lemma_answered_rejections(w.drop_first());
        assert(seq![w[0].ticket] + waiting_tickets(w.drop_first()) =~= waiting_tickets(w));
    }
}

proof fn lemma_answered_farewell(s: SessionState)
    ensures
        answered(farewell(s)) == Seq::<u64>::empty(),
{
    let f = farewell(s);
    assert(f.drop_first() =~= seq![f[1]]);
    lemma_answered_one(f[1]);
}

proof fn lemma_fail_answers(s: SessionState, first: ResponseText)
    requires
        s.inflight is Some,
    ensures
        answered(fail(s, first).1) == tickets_of(s),
        tickets_of(fail(s, first).0) == Seq::<u64>::empty(),
{
    let head = seq![ActionText::Respond { ticket: s.inflight->0, response: first }];
    lemma_answered_one(head[0]);
    lemma_answered_rejections(s.waiting);
    lemma_answered_farewell(s);
    lemma_answered_concat(head, rejections(s.waiting));
    lemma_answered_concat(head + rejections(s.waiting), farewell(s));
    assert(answered(fail(s, first).1) =~= tickets_of(s));
    assert(tickets_of(closed(s)) =~= Seq::<u64>::empty());
}

proof fn lemma_shut_down_answers(s: SessionState)
    ensures
        answered(shut_down(s).1) == tickets_of(s),
        tickets_of(shut_down(s).0) == Seq::<u64>::empty(),
{
    match s.inflight {
        Some(_) => {
            lemma_fail_answers(s, bad_gateway_text());
        },
        None => {
            lemma_answered_rejections(s.waiting);
            lemma_answered_farewell(s);
            lemma_answered_concat(rejections(s.waiting), farewell(s));
            assert(answered(shut_down(s).1) =~= tickets_of(s));
            assert(tickets_of(closed(s)) =~= Seq::<u64>::empty());
        },
    }
}

proof fn lemma_pump_answers(s: SessionState)
    ensures
        answered(pump(s).1) + tickets_of(pump(s).0) == tickets_of(s),
    decreases pump_measure(s),
{
    let (end, acts) = pump(s);
    match s.inflight {
        None => {
            if s.waiting.len() == 0 {
                assert(answered(acts) + tickets_of(end) =~= tickets_of(s));
            } else {
                let next = s.waiting[0];
                let started = SessionState {
                    inflight: Some(next.ticket),
                    waiting: s.waiting.drop_first(),
                    ..s
                };
                lemma_pump_answers(started);
                let write = seq![
                    ActionText::Write { stream: s.stream, ticket: next.ticket, frame: next.frame },
                ];
                lemma_answered_one(write[0]);
                lemma_answered_concat(write, pump(started).1);
                assert(answered(acts) =~= answered(pump(started).1));
                assert(tickets_of(started) =~= tickets_of(s));
            }
        },
        Some(ticket) => {
            match read_prefixed(s.rx, s.cap) {
                FrameReading::Incomplete => {
                    assert(answered(acts) + tickets_of(end) =~= tickets_of(s));
                },
                FrameReading::Malformed(_) => {
                    lemma_fail_answers(s, bad_gateway_text());
                    assert(answered(acts) + tickets_of(end) =~= tickets_of(s));
                },
                FrameReading::Ready { payload, rest } => {
                    let taken = SessionState { rx: rest, ..s };
                    match response_of(httparse_response(payload, MAX_HEADERS as nat), payload) {
                        Err(e) => {
                            lemma_fail_answers(taken, unreadable(e));
                            assert(tickets_of(taken) =~= tickets_of(s));
                            assert(answered(acts) + tickets_of(end) =~= tickets_of(s));
                        },
                        Ok(response) => {
                            let idle = SessionState { inflight: None, ..taken };
                            lemma_pump_answers(idle);
                            let respond = seq![ActionText::Respond { ticket, response }];
                            lemma_answered_one(respond[0]);
                            lemma_answered_concat(respond, pump(idle).1);
                            assert(seq![ticket] + tickets_of(idle) =~= tickets_of(s));
                            assert(answered(acts) + tickets_of(end) =~= seq![ticket] + (answered(
                                pump(idle).1,
                            ) + tickets_of(pump(idle).0)));
                        },
                    }
                },
            }
        },
    }
}

proof fn lemma_pump_valid(s: SessionState)
    requires
        s.phase == Phase::Bound,
    ensures
        valid(pump(s).0),
        pump(s).0.service_id == s.service_id,
        pump(s).0.phase != Phase::AwaitingStream,
        pump(s).0.phase == Phase::Closed ==> pump(s).1.len() > 0 && pump(s).1.last()
            == (ActionText::Unregister { service_id: s.service_id }),
    decreases pump_measure(s),
{
    match s.inflight {
        None => {
            if s.waiting.len() > 0 {
                let next = s.waiting[0];
                let started = SessionState {
                    inflight: Some(next.ticket),
                    waiting: s.waiting.drop_first(),
                    ..s
                };
                lemma_pump_valid(started);
            }
        },
        Some(ticket) => {
            match read_prefixed(s.rx, s.cap) {
                FrameReading::Incomplete => {},
                FrameReading::Malformed(_) => {},
                FrameReading::Ready { payload, rest } => {
                    let taken = SessionState { rx: rest, ..s };
                    match response_of(httparse_response(payload, MAX_HEADERS as nat), payload) {
                        Err(e) => {},
                        Ok(response) => {
                            let idle = SessionState { inflight: None, ..taken };
                            lemma_pump_valid(idle);
                        },
                    }
                },
            }
        },
    }
}

proof fn lemma_in_turn_without_writes(acts: Seq<ActionText>, busy: bool)
    requires
        writes_nothing(acts),
    ensures
        in_turn(acts, busy),
    decreases acts.len(),
{
    if acts.len() > 0 {
        assert(!(acts[0] is Write));
        let rest = acts.drop_first();
        assert forall|i: int| 0 <= i < rest.len() implies !(#[trigger] rest[i] is Write) by {
            assert(rest[i] == acts[i + 1]);
        }
        lemma_in_turn_without_writes(rest, true);
        lemma_in_turn_without_writes(rest, false);
    }
}

proof fn lemma_busy_without_writes(acts: Seq<ActionText>, busy: bool)
    requires
        writes_nothing(acts),
    ensures
        !busy ==> !busy_after(acts, busy),
        acts.len() > 0 && acts[0] is Respond ==> !busy_after(acts, busy),
        (forall|i: int| 0 <= i < acts.len() ==> !(#[trigger] acts[i] is Respond)) ==> busy_after(
            acts,
            busy,
        ) == busy,
    decreases acts.len(),
{
    if acts.len() > 0 {
        assert(!(acts[0] is Write));
        let rest = acts.drop_first();
        assert forall|i: int| 0 <= i < rest.len() implies !(#[trigger] rest[i] is Write) by {
            assert(rest[i] == acts[i + 1]);
        }
        lemma_busy_without_writes(rest, busy);
        lemma_busy_without_writes(rest, false);
        if forall|i: int| 0 <= i < acts.len() ==> !(#[trigger] acts[i] is Respond) {
            assert forall|i: int| 0 <= i < rest.len() implies !(#[trigger] rest[i] is Respond) by {
                assert(rest[i] == acts[i + 1]);
            }
        }
    }
}

proof fn lemma_fail_writes_nothing(s: SessionState, first: ResponseText)
    ensures
        writes_nothing(fail(s, first).1),
        writes_nothing(shut_down(s).1),
{
}

proof fn lemma_pump_in_turn(s: SessionState)
    ensures
        in_turn(pump(s).1, s.inflight is Some),
        busy_after(pump(s).1, s.inflight is Some) == pump(s).0.inflight is Some,
    decreases pump_measure(s),
{
    let acts = pump(s).1;
    match s.inflight {
        None => {
            if s.waiting.len() > 0 {
                let next = s.waiting[0];
                let started = SessionState {
                    inflight: Some(next.ticket),
                    waiting: s.waiting.drop_first(),
                    ..s
                };
                lemma_pump_in_turn(started);
                assert(acts.drop_first() =~= pump(started).1);
            }
        },
        Some(ticket) => {
            match read_prefixed(s.rx, s.cap) {
                FrameReading::Incomplete => {},
                FrameReading::Malformed(_) => {
                    lemma_fail_writes_nothing(s, bad_gateway_text());
                    lemma_in_turn_without_writes(acts, true);
                    lemma_busy_without_writes(acts, true);
                },
                FrameReading::Ready { payload, rest } => {
                    let taken = SessionState { rx: rest, ..s };
                    match response_of(httparse_response(payload, MAX_HEADERS as nat), payload) {
                        Err(e) => {
                            lemma_fail_writes_nothing(taken, unreadable(e));
                            lemma_in_turn_without_writes(acts, true);
                            lemma_busy_without_writes(acts, true);
                        },
                        Ok(response) => {
                            let idle = SessionState { inflight: None, ..taken };
                            lemma_pump_in_turn(idle);
                            assert(acts.drop_first() =~= pump(idle).1);
                        },
                    }
                },
            }
        },
    }
}

/// A fresh session is at rest.
pub proof fn initial_is_valid(service_id: Seq<u8>, cap: nat)
    ensures
        valid(initial(service_id, cap)),
        tickets_of(initial(service_id, cap)) == Seq::<u64>::empty(),
{
    assert(tickets_of(initial(service_id, cap)) =~= Seq::<u64>::empty());
}

/// A session that is at rest before an event is at rest after it, and it
/// serves the same id.
pub proof fn validity_is_kept(s: SessionState, ev: SessionEvent)
    requires
        valid(s),
    ensures
        valid(step(s, ev).0),
        step(s, ev).0.service_id == s.service_id,
{
    match ev {
        SessionEvent::Request(req, ticket) => {
            if s.phase == Phase::Bound {
                lemma_pump_valid(enqueue(s, req, ticket));
            }
        },
        SessionEvent::Bytes(bytes) => {
            if s.phase == Phase::Bound {
                lemma_pump_valid(feed(s, bytes));
            }
        },
        _ => {},
    }
}

/// Every request handed to a session is answered exactly once, and in
/// the order of arrival: the tickets answered by an event's actions,
/// followed by the tickets still owed afterwards, are the tickets owed
/// before, followed by the one that arrived. A closed session owes none.
pub proof fn every_request_is_answered_once(s: SessionState, ev: SessionEvent)
    requires
        valid(s),
    ensures
        answered(step(s, ev).1) + tickets_of(step(s, ev).0) == tickets_of(s) + arriving(ev),
        step(s, ev).0.phase == Phase::Closed ==> tickets_of(step(s, ev).0) == Seq::<u64>::empty(),
{
    let (end, acts) = step(s, ev);
    validity_is_kept(s, ev);
    assert(end.phase == Phase::Closed ==> tickets_of(end) =~= Seq::<u64>::empty());
    match ev {
        SessionEvent::Stream(stream) => {
            if s.phase != Phase::AwaitingStream {
                lemma_answered_one(ActionText::CloseStream { stream });
            }
            assert(answered(acts) + tickets_of(end) =~= tickets_of(s) + arriving(ev));
        },
        SessionEvent::Request(req, ticket) => {
            if s.phase == Phase::Bound {
                let queued = enqueue(s, req, ticket);
                lemma_pump_answers(queued);
                assert(tickets_of(queued) =~= tickets_of(s) + seq![ticket]);
            } else {
                lemma_answered_one(acts[0]);
                assert(tickets_of(s) =~= Seq::<u64>::empty());
                assert(answered(acts) + tickets_of(end) =~= tickets_of(s) + arriving(ev));
            }
        },
        SessionEvent::Bytes(bytes) => {
            if s.phase == Phase::Bound {
                let fed = feed(s, bytes);
                lemma_pump_answers(fed);
                assert(tickets_of(fed) =~= tickets_of(s));
            }
            assert(answered(acts) + tickets_of(end) =~= tickets_of(s) + arriving(ev));
        },
        SessionEvent::StreamLost => {
            if s.phase == Phase::Bound {
                lemma_shut_down_answers(s);
            }
            assert(answered(acts) + tickets_of(end) =~= tickets_of(s) + arriving(ev));
        },
        SessionEvent::InboxLost => {
            match s.phase {
                Phase::AwaitingStream => {
                    lemma_answered_one(acts[0]);
                    assert(tickets_of(s) =~= Seq::<u64>::empty());
                },
                Phase::Bound => {
                    lemma_shut_down_answers(s);
                },
                Phase::Closed => {},
            }
            assert(answered(acts) + tickets_of(end) =~= tickets_of(s) + arriving(ev));
        },
    }
}

/// Requests go over the stream one at a time: within the actions of an
/// event, a request frame is written only when no request is on the
/// stream, that is, after the response to the one before has been read
/// to its end and handed out. The stream is busy after the actions
/// exactly if the session then has a request on it, so the same holds
/// over any run of events.
pub proof fn one_request_at_a_time(s: SessionState, ev: SessionEvent)
    requires
        valid(s),
    ensures
        in_turn(step(s, ev).1, s.inflight is Some),
        busy_after(step(s, ev).1, s.inflight is Some) == step(s, ev).0.inflight is Some,
{
    let acts = step(s, ev).1;
    let busy = s.inflight is Some;
    match ev {
        SessionEvent::Request(req, ticket) => {
            if s.phase == Phase::Bound {
                lemma_pump_in_turn(enqueue(s, req, ticket));
            } else {
                lemma_in_turn_without_writes(acts, false);
                lemma_busy_without_writes(acts, false);
            }
        },
        SessionEvent::Bytes(bytes) => {
            if s.phase == Phase::Bound {
                lemma_pump_in_turn(feed(s, bytes));
            }
        },
        _ => {
            lemma_fail_writes_nothing(s, bad_gateway_text());
            lemma_in_turn_without_writes(acts, busy);
            lemma_busy_without_writes(acts, busy);
            if !(acts.len() > 0 && acts[0] is Respond) {
                assert forall|i: int| 0 <= i < acts.len() implies !(#[trigger] acts[i] is Respond) by {
                    if s.phase == Phase::Bound && !(ev is Stream) {
                        assert(s.waiting.len() == 0);
                    }
                }
            }
        },
    }
}

/// A session that ends asks to be unregistered, as its last action, and
/// a closed session stays closed.
pub proof fn exit_unregisters(s: SessionState, ev: SessionEvent)
    requires
        valid(s),
    ensures
        s.phase == Phase::Closed ==> step(s, ev).0.phase == Phase::Closed,
        s.phase != Phase::Closed && step(s, ev).0.phase == Phase::Closed ==> step(s, ev).1.len() > 0
            && step(s, ev).1.last() == (ActionText::Unregister { service_id: s.service_id }),
{
    match ev {
        SessionEvent::Request(req, ticket) => {
            if s.phase == Phase::Bound {
                lemma_pump_valid(enqueue(s, req, ticket));
            }
        },
        SessionEvent::Bytes(bytes) => {
            if s.phase == Phase::Bound {
                lemma_pump_valid(feed(s, bytes));
            }
        },
        _ => {},
    }
}

/// An id is registered to one session at a time: a second registration
/// under a taken id is refused and changes nothing.
pub proof fn taken_id_is_refused(s: ManagerState, service_id: Seq<u8>, first: u64, second: u64)
    ensures
        ({
            let (held, _) = manage(s, MessageText::RegisterService { service_id, session: first });
            &&& held.services.contains_key(service_id)
            &&& manage(held, MessageText::RegisterService { service_id, session: second }) == (
                held,
                ManagerActionText::Refused { session: second },
            )
        }),
{
}

/// Once a session has been unregistered, a request for its id is
/// answered with `404`, and a stream that claims its id is closed.
pub proof fn unregistered_is_not_found(
    s: ManagerState,
    service_id: Seq<u8>,
    request: RequestText,
    ticket: u64,
    stream: u64,
)
    requires
        target_of(request, s.domain) == Some(service_id),
    ensures
        ({
            let (after, _) = manage(s, MessageText::UnregisterService { service_id });
            &&& !after.services.contains_key(service_id)
            &&& manage(after, MessageText::ForwardRequest { request, ticket }) == (
                after,
                ManagerActionText::Respond { ticket, response: not_found_text() },
            )
            &&& manage(after, MessageText::ForwardPrimaryStream { service_id, stream }) == (
                after,
                ManagerActionText::CloseStream { stream },
            )
        }),
{
}

/// Unregistering is idempotent.
pub proof fn unregister_twice(s: ManagerState, service_id: Seq<u8>)
    ensures
        ({
            let (after, _) = manage(s, MessageText::UnregisterService { service_id });
            manage(after, MessageText::UnregisterService { service_id }).0 == after
        }),
{
    let (after, _) = manage(s, MessageText::UnregisterService { service_id });
    assert(after.services.remove(service_id) =~= after.services);
}

/// Whether a request's target names a registered service.
pub open spec fn registered(s: ManagerState, target: Option<Seq<u8>>) -> bool {
    target is Some && s.services.contains_key(target->0)
}

/// A tenant request is answered at once or handed on, never both and
/// never neither: the manager's one action is a response for the
/// request's ticket, or the delivery of the unchanged request, with its
/// ticket, to the session registered for its id. The registry is left as
/// it was.
pub proof fn request_is_answered_or_delivered(s: ManagerState, request: RequestText, ticket: u64)
    ensures
        ({
            let (after, action) = manage(s, MessageText::ForwardRequest { request, ticket });
            &&& after == s
            &&& match action {
                ManagerActionText::Respond { ticket: t, .. } => t == ticket && !registered(
                    s,
                    target_of(request, s.domain),
                ),
                ManagerActionText::DeliverRequest { session, request: r, ticket: t } => t == ticket
                    && r == request && registered(s, target_of(request, s.domain))
                    && s.services[target_of(request, s.domain)->0] == session,
                _ => false,
            }
        }),
{
}

/// The text of a request that holds no NUL byte reaches the agent as the
/// session wrote it: method, target, headers in order and body, byte for
/// byte.
pub proof fn request_text_survives_framing(r: RequestText, rest: Seq<u8>)
    requires
        !request_text(r).contains(0u8),
    ensures
        read_delimited(request_frame(request_text(r)) + rest) == (FrameReading::Ready {
            payload: request_text(r),
            rest,
        }),
{
    request_frame_round_trip(request_text(r), rest);
}

/// An id that holds no NUL byte is read back from its handshake, whatever
/// follows it on the stream.
pub proof fn handshake_names_its_id(service_id: Seq<u8>, rest: Seq<u8>, ended: bool)
    requires
        !service_id.contains(0u8),
    ensures
        handshake_prefix(service_id.push(0u8) + rest, ended) == Some(service_id),
{
    request_frame_round_trip(service_id, rest);
    lemma_nul_position(service_id.push(0u8) + rest);
}

} // verus!
