//! The session of one registered agent, as a state machine.
//!
//! A session is fed with the messages of its inbox and with what happens
//! on its control stream, and answers each event with the actions to
//! carry out, in order. Requests are put on the stream one at a time: the
//! next request frame is written only when the response frame of the one
//! before has been read to its end. Every request handed to a session is
//! answered exactly once, by the agent's response or by a response made
//! here.
//!
//! A second stream offered to a bound session is closed; the first one
//! stays. A session whose agent is gone closes and asks to be
//! unregistered; a request that still reaches it is answered with `502`,
//! and once the registry has forgotten it, requests for its id get `404`
//! there.
//!
//! Known limits. Nothing here times out: an agent that never answers
//! holds its session and the requests behind it for as long as its stream
//! stays open. The queue of waiting requests is unbounded. Bytes that an
//! agent sends while no request is on the stream are kept and read as the
//! start of the next response.

use vstd::prelude::*;
use vstd::slice::slice_to_vec;
use crate::bytes::append_bytes;
use crate::head::{HeadError, MAX_HEADERS, decode_response, httparse_response, response_of};
use crate::message::{
    HttpRequest, HttpResponse, RequestText, ResponseText, bad_gateway_text, bad_request_text,
    create_http_text, request_text,
};
use crate::wire::{
    FrameReading, FrameStatus, encode_request_frame, read_prefixed, request_frame, take_prefixed,
};

verus! {

/// Where a session is in its life.
#[derive(Clone, Copy, Debug, PartialEq, Eq, Structural)]
pub enum Phase {
    /// Registered, no control stream yet.
    AwaitingStream,
    /// Serving requests over its control stream.
    Bound,
    /// Finished; it has asked to be unregistered.
    Closed,
}

/// A message of a session's inbox.
#[derive(Clone, Debug, PartialEq, Eq)]
pub enum ServiceSessionMessage {
    /// The control stream of the agent that claimed this session's id.
    RecvPrimaryStream(u64),
    /// A request to serve, and the ticket of the mailbox that awaits its
    /// response.
    RecvRequest(HttpRequest, u64),
}

/// Something for the session's owner to carry out.
#[derive(Clone, Debug, PartialEq, Eq)]
pub enum SessionAction {
    /// Write `frame`, the request of `ticket`, to the control stream.
    Write { stream: u64, ticket: u64, frame: Vec<u8> },
    /// Complete the mailbox of `ticket` with `response`.
    Respond { ticket: u64, response: HttpResponse },
    /// Close a stream and drop it.
    CloseStream { stream: u64 },
    /// Ask the registry to forget this session.
    Unregister { service_id: Vec<u8> },
}

/// An action as plain sequences.
pub enum ActionText {
    Write { stream: u64, ticket: u64, frame: Seq<u8> },
    Respond { ticket: u64, response: ResponseText },
    CloseStream { stream: u64 },
    Unregister { service_id: Seq<u8> },
}

impl View for SessionAction {
    type V = ActionText;

    open spec fn view(&self) -> ActionText {
        match *self {
            SessionAction::Write { stream, ticket, frame } => ActionText::Write {
                stream,
                ticket,
                frame: frame@,
            },
            SessionAction::Respond { ticket, response } => ActionText::Respond {
                ticket,
                response: response@,
            },
            SessionAction::CloseStream { stream } => ActionText::CloseStream { stream },
            SessionAction::Unregister { service_id } => ActionText::Unregister {
                service_id: service_id@,
            },
        }
    }
}

/// The actions of a list, in order.
pub open spec fn actions_text(acts: Seq<SessionAction>) -> Seq<ActionText> {
    Seq::new(acts.len(), |i: int| acts[i]@)
}

/// A request that waits for its turn on the stream.
pub struct Waiting {
    pub ticket: u64,
    pub frame: Seq<u8>,
}

/// The state of a session.
pub struct SessionState {
    pub service_id: Seq<u8>,
    /// The largest response payload accepted from the agent.
    pub cap: nat,
    pub phase: Phase,
    /// The control stream; meaningful while bound.
    pub stream: u64,
    /// The ticket of the request that is on the stream, if one is.
    pub inflight: Option<u64>,
    /// The requests that wait, oldest first.
    pub waiting: Seq<Waiting>,
    /// Bytes received from the agent and not yet consumed.
    pub rx: Seq<u8>,
}

/// The tickets a session owes a response, oldest first.
pub open spec fn tickets_of(s: SessionState) -> Seq<u64> {
    let waiting = Seq::new(s.waiting.len(), |i: int| s.waiting[i].ticket);
    match s.inflight {
        Some(t) => seq![t] + waiting,
        None => waiting,
    }
}

/// A fresh session.
pub open spec fn initial(service_id: Seq<u8>, cap: nat) -> SessionState {
    SessionState {
        service_id,
        cap,
        phase: Phase::AwaitingStream,
        stream: 0,
        inflight: None,
        waiting: Seq::empty(),
        rx: Seq::empty(),
    }
}

/// The state a session ends in.
pub open spec fn closed(s: SessionState) -> SessionState {
    SessionState {
        phase: Phase::Closed,
        inflight: None,
        waiting: Seq::empty(),
        rx: Seq::empty(),
        ..s
    }
}

/// `502` for each waiting request, oldest first.
pub open spec fn rejections(waiting: Seq<Waiting>) -> Seq<ActionText> {
    Seq::new(
        waiting.len(),
        |i: int| ActionText::Respond { ticket: waiting[i].ticket, response: bad_gateway_text() },
    )
}

/// The last two actions of a bound session.
pub open spec fn farewell(s: SessionState) -> Seq<ActionText> {
    seq![
        ActionText::CloseStream { stream: s.stream },
        ActionText::Unregister { service_id: s.service_id },
    ]
}

/// A bound session gives up: the request on the stream is answered with
/// `first`, the waiting ones with `502`, the stream is closed and the
/// session unregisters.
pub open spec fn fail(s: SessionState, first: ResponseText) -> (SessionState, Seq<ActionText>) {
    (
        closed(s),
        seq![ActionText::Respond { ticket: s.inflight->0, response: first }] + rejections(
            s.waiting,
        ) + farewell(s),
    )
}

/// A bound session ends because its stream or its inbox is gone.
pub open spec fn shut_down(s: SessionState) -> (SessionState, Seq<ActionText>) {
    match s.inflight {
        Some(_) => fail(s, bad_gateway_text()),
        None => (closed(s), rejections(s.waiting) + farewell(s)),
    }
}

/// The response made here for an agent response that cannot be read.
pub open spec fn unreadable(e: HeadError) -> ResponseText {
    match e {
        HeadError::Partial => bad_request_text(),
        HeadError::Invalid => bad_gateway_text(),
    }
}

/// What shrinks with every turn a session takes by itself.
pub open spec fn pump_measure(s: SessionState) -> nat {
    2 * s.waiting.len() + if s.inflight is Some { 1nat } else { 0nat }
}

/// A bound session does all it can with what it holds: it reads the
/// response of the request on the stream, answers it, and puts the next
/// waiting request on the stream, until it lacks bytes or requests.
pub open spec fn pump(s: SessionState) -> (SessionState, Seq<ActionText>)
    decreases pump_measure(s),
{
    match s.inflight {
        None => if s.waiting.len() == 0 {
            (s, Seq::empty())
        } else {
            let next = s.waiting[0];
            let started = SessionState {
                inflight: Some(next.ticket),
                waiting: s.waiting.drop_first(),
                ..s
            };
            let (end, acts) = pump(started);
            (
                end,
                seq![ActionText::Write { stream: s.stream, ticket: next.ticket, frame: next.frame }]
                    + acts,
            )
        },
        Some(ticket) => match read_prefixed(s.rx, s.cap) {
            FrameReading::Incomplete => (s, Seq::empty()),
            FrameReading::Malformed(_) => fail(s, bad_gateway_text()),
            FrameReading::Ready { payload, rest } => {
                let taken = SessionState { rx: rest, ..s };
                match response_of(httparse_response(payload, MAX_HEADERS as nat), payload) {
                    Err(e) => fail(taken, unreadable(e)),
                    Ok(response) => {
                        let idle = SessionState { inflight: None, ..taken };
                        let (end, acts) = pump(idle);
                        (end, seq![ActionText::Respond { ticket, response }] + acts)
                    },
                }
            },
        },
    }
}

/// A request joins the end of the queue, framed for the stream.
pub open spec fn enqueue(s: SessionState, req: RequestText, ticket: u64) -> SessionState {
    SessionState {
        waiting: s.waiting.push(Waiting { ticket, frame: request_frame(request_text(req)) }),
        ..s
    }
}

/// Bytes from the agent join the end of the receive buffer.
pub open spec fn feed(s: SessionState, bytes: Seq<u8>) -> SessionState {
    SessionState { rx: s.rx + bytes, ..s }
}

/// A request arrives.
pub open spec fn on_request(s: SessionState, req: RequestText, ticket: u64) -> (
    SessionState,
    Seq<ActionText>,
) {
    match s.phase {
        Phase::Bound => pump(enqueue(s, req, ticket)),
        _ => (s, seq![ActionText::Respond { ticket, response: bad_gateway_text() }]),
    }
}

/// A control stream arrives.
pub open spec fn on_stream(s: SessionState, stream: u64) -> (SessionState, Seq<ActionText>) {
    match s.phase {
        Phase::AwaitingStream => (SessionState { phase: Phase::Bound, stream, ..s }, Seq::empty()),
        _ => (s, seq![ActionText::CloseStream { stream }]),
    }
}

/// Bytes arrive from the agent.
pub open spec fn on_bytes(s: SessionState, bytes: Seq<u8>) -> (SessionState, Seq<ActionText>) {
    match s.phase {
        Phase::Bound => pump(feed(s, bytes)),
        _ => (s, Seq::empty()),
    }
}

/// The control stream ended or failed.
pub open spec fn on_stream_lost(s: SessionState) -> (SessionState, Seq<ActionText>) {
    match s.phase {
        Phase::Bound => shut_down(s),
        _ => (s, Seq::empty()),
    }
}

/// The inbox was closed: nobody can send to this session any more.
pub open spec fn on_inbox_lost(s: SessionState) -> (SessionState, Seq<ActionText>) {
    match s.phase {
        Phase::AwaitingStream => (
            closed(s),
            seq![ActionText::Unregister { service_id: s.service_id }],
        ),
        Phase::Bound => shut_down(s),
        Phase::Closed => (s, Seq::empty()),
    }
}

struct Queued {
    ticket: u64,
    frame: Vec<u8>,
}

/// The session of one agent.
pub struct ServiceSession {
    service_id: Vec<u8>,
    cap: usize,
    phase: Phase,
    stream: u64,
    inflight: Option<u64>,
    waiting: Vec<Queued>,
    rx: Vec<u8>,
}

spec fn waiting_text(q: Seq<Queued>) -> Seq<Waiting> {
    Seq::new(q.len(), |i: int| Waiting { ticket: q[i].ticket, frame: q[i].frame@ })
}

fn push_action(acts: &mut Vec<SessionAction>, action: SessionAction)
    ensures
        actions_text(final(acts)@) == actions_text(old(acts)@).push(action@),
{
    acts.push(action);
    assert(actions_text(acts@) =~= actions_text(old(acts)@).push(action@));
}

impl ServiceSession {
    /// The session's state.
    pub closed spec fn view(&self) -> SessionState {
        SessionState {
            service_id: self.service_id@,
            cap: self.cap as nat,
            phase: self.phase,
            stream: self.stream,
            inflight: self.inflight,
            waiting: waiting_text(self.waiting@),
            rx: self.rx@,
        }
    }

    /// A session for `service_id` that accepts response payloads of up to
    /// `max_response_len` bytes.
    pub fn new(service_id: Vec<u8>, max_response_len: usize) -> (s: ServiceSession)
        ensures
            s@ == initial(service_id@, max_response_len as nat),
    {
        let s = ServiceSession {
            service_id,
            cap: max_response_len,
            phase: Phase::AwaitingStream,
            stream: 0,
            inflight: None,
            waiting: Vec::new(),
            rx: Vec::new(),
        };
        assert(s@.waiting =~= Seq::empty());
        s
    }

    /// The id this session serves.
    pub fn service_id(&self) -> (id: &[u8])
        ensures
            id@ == self@.service_id,
    {
        self.service_id.as_slice()
    }

    /// Where the session is in its life.
    pub fn phase(&self) -> (p: Phase)
        ensures
            p == self@.phase,
    {
        self.phase
    }

    /// Whether the session has ended.
    pub fn is_closed(&self) -> (c: bool)
        ensures
            c == (self@.phase == Phase::Closed),
    {
        match self.phase {
            Phase::Closed => true,
            _ => false,
        }
    }

    /// The ticket of the request that is on the stream, if one is.
    pub fn inflight(&self) -> (t: Option<u64>)
        ensures
            t == self@.inflight,
    {
        self.inflight
    }

    /// How many requests wait for their turn on the stream.
    pub fn waiting(&self) -> (n: usize)
        ensures
            n == self@.waiting.len(),
    {
        self.waiting.len()
    }

    fn reject_waiting(&mut self, acts: &mut Vec<SessionAction>)
        ensures
            final(self)@ == (SessionState { waiting: Seq::empty(), ..old(self)@ }),
            actions_text(final(acts)@) == actions_text(old(acts)@) + rejections(old(self)@.waiting),
    {
        let n: usize = self.waiting.len();
        let ghost all = self@.waiting;
        let mut i: usize = 0;
        while i < n
            invariant
                i <= n,
                n == self.waiting@.len(),
                *self == *old(self),
                all == old(self)@.waiting,
                actions_text(acts@) == actions_text(old(acts)@) + rejections(all).subrange(0, i as int),
            decreases n - i,
        {
            let ghost before = actions_text(acts@);
            push_action(
                acts,
                SessionAction::Respond {
                    ticket: self.waiting[i].ticket,
                    response: HttpResponse::bad_gateway(),
                },
            );
            i = i + 1;
            assert(actions_text(acts@) =~= actions_text(old(acts)@) + rejections(all).subrange(
                0,
                i as int,
            ));
        }
        assert(rejections(all).subrange(0, n as int) =~= rejections(all));
        self.waiting = Vec::new();
        assert(self@.waiting =~= Seq::empty());
    }

    fn say_farewell(&mut self, acts: &mut Vec<SessionAction>)
        requires
            old(self)@.waiting.len() == 0,
        ensures
            final(self)@ == closed(old(self)@),
            actions_text(final(acts)@) == actions_text(old(acts)@) + farewell(old(self)@),
    {
        push_action(acts, SessionAction::CloseStream { stream: self.stream });
        push_action(
            acts,
            SessionAction::Unregister { service_id: slice_to_vec(self.service_id.as_slice()) },
        );
        self.phase = Phase::Closed;
        self.inflight = None;
        self.rx = Vec::new();
        assert(self@.waiting =~= Seq::empty());
        assert(self@.rx =~= Seq::empty());
        assert(actions_text(acts@) =~= actions_text(old(acts)@) + farewell(old(self)@));
    }

    fn fail(&mut self, ticket: u64, first: HttpResponse, acts: &mut Vec<SessionAction>)
        requires
            old(self)@.inflight == Some(ticket),
        ensures
            final(self)@ == fail(old(self)@, first@).0,
            actions_text(final(acts)@) == actions_text(old(acts)@) + fail(old(self)@, first@).1,
    {
        push_action(acts, SessionAction::Respond { ticket, response: first });
        self.reject_waiting(acts);
        self.say_farewell(acts);
        assert(actions_text(acts@) =~= actions_text(old(acts)@) + fail(old(self)@, first@).1);
    }

    fn shut_down(&mut self, acts: &mut Vec<SessionAction>)
        ensures
            final(self)@ == shut_down(old(self)@).0,
            actions_text(final(acts)@) == actions_text(old(acts)@) + shut_down(old(self)@).1,
    {
        match self.inflight {
            Some(ticket) => {
                self.fail(ticket, HttpResponse::bad_gateway(), acts);
            },
            None => {
                self.reject_waiting(acts);
                self.say_farewell(acts);
                assert(actions_text(acts@) =~= actions_text(old(acts)@) + shut_down(
                    old(self)@,
                ).1);
            },
        }
    }

    fn pump(&mut self, acts: &mut Vec<SessionAction>)
        ensures
            final(self)@ == pump(old(self)@).0,
            actions_text(final(acts)@) == actions_text(old(acts)@) + pump(old(self)@).1,
    {
        let ghost mut done: Seq<ActionText> = Seq::empty();
        assert(actions_text(acts@) =~= actions_text(old(acts)@) + done);
        assert(pump(old(self)@).1 =~= done + pump(self@).1);
        loop
            invariant
                actions_text(acts@) == actions_text(old(acts)@) + done,
                pump(old(self)@).0 == pump(self@).0,
                pump(old(self)@).1 == done + pump(self@).1,
            decreases pump_measure(self@),
        {
            let ghost here = self@;
            let ghost shown = actions_text(acts@);
            match self.inflight {
                None => {
                    if self.waiting.len() == 0 {
                        assert(pump(here).1 =~= Seq::<ActionText>::empty());
                        assert(done + pump(here).1 =~= done);
                        return ;
                    }
                    let next: Queued = self.waiting.remove(0);
                    self.inflight = Some(next.ticket);
                    let ghost write = ActionText::Write {
                        stream: self.stream,
                        ticket: next.ticket,
                        frame: next.frame@,
                    };
                    push_action(
                        acts,
                        SessionAction::Write {
                            stream: self.stream,
                            ticket: next.ticket,
                            frame: next.frame,
                        },
                    );
                    proof {
                        assert(self@.waiting =~= here.waiting.drop_first());
                        assert(pump(here).1 == seq![write] + pump(self@).1);
                        assert(done + pump(here).1 =~= done.push(write) + pump(self@).1);
                        assert(actions_text(acts@) =~= actions_text(old(acts)@) + done.push(write));
                        done = done.push(write);
                    }
                },
                Some(ticket) => {
                    match take_prefixed(&mut self.rx, self.cap) {
                        FrameStatus::Incomplete => {
                            assert(self@ == here);
                            assert(done + pump(here).1 =~= done);
                            return ;
                        },
                        FrameStatus::Malformed(_) => {
                            assert(self@ == here);
                            self.fail(ticket, HttpResponse::bad_gateway(), acts);
                            assert(actions_text(acts@) =~= actions_text(old(acts)@) + (done + pump(
                                here,
                            ).1));
                            return ;
                        },
                        FrameStatus::Ready(payload) => {
                            let ghost taken = self@;
                            match decode_response(payload.as_slice()) {
                                Err(e) => {
                                    let first: HttpResponse = match e {
                                        HeadError::Partial => HttpResponse::bad_request(),
                                        HeadError::Invalid => HttpResponse::bad_gateway(),
                                    };
                                    self.fail(ticket, first, acts);
                                    assert(actions_text(acts@) =~= actions_text(old(acts)@) + (done
                                        + pump(here).1));
                                    return ;
                                },
                                Ok(response) => {
                                    let ghost respond = ActionText::Respond {
                                        ticket,
                                        response: response@,
                                    };
                                    push_action(acts, SessionAction::Respond { ticket, response });
                                    self.inflight = None;
                                    proof {
                                        assert(pump(here).1 == seq![respond] + pump(self@).1);
                                        assert(done + pump(here).1 =~= done.push(respond) + pump(
                                            self@,
                                        ).1);
                                        assert(actions_text(acts@) =~= actions_text(old(acts)@)
                                            + done.push(respond));
                                        done = done.push(respond);
                                    }
                                },
                            }
                        },
                    }
                },
            }
        }
    }

    /// Handles a message of the inbox.
    ///
    /// A request that reaches a session without a stream, or a closed
    /// one, is answered with `502` at once. A stream that reaches a
    /// session which has one, or a closed one, is closed.
    pub fn on_message(&mut self, msg: ServiceSessionMessage) -> (acts: Vec<SessionAction>)
        ensures
            match msg {
                ServiceSessionMessage::RecvPrimaryStream(stream) => (final(self)@, actions_text(acts@))
                    == on_stream(old(self)@, stream),
                ServiceSessionMessage::RecvRequest(req, ticket) => (final(self)@, actions_text(acts@))
                    == on_request(old(self)@, req@, ticket),
            },
    {
        let mut acts: Vec<SessionAction> = Vec::new();
        assert(actions_text(acts@) =~= Seq::empty());
        match msg {
            ServiceSessionMessage::RecvPrimaryStream(stream) => {
                match self.phase {
                    Phase::AwaitingStream => {
                        self.phase = Phase::Bound;
                        self.stream = stream;
                    },
                    _ => {
                        push_action(&mut acts, SessionAction::CloseStream { stream });
                        assert(actions_text(acts@) =~= seq![ActionText::CloseStream { stream }]);
                    },
                }
            },
            ServiceSessionMessage::RecvRequest(req, ticket) => {
                match self.phase {
                    Phase::Bound => {
                        let text: Vec<u8> = create_http_text(&req);
                        let frame: Vec<u8> = encode_request_frame(text.as_slice());
                        self.waiting.push(Queued { ticket, frame });
                        assert(self@.waiting =~= enqueue(old(self)@, req@, ticket).waiting);
                        let ghost queued = self@;
                        self.pump(&mut acts);
                        assert(actions_text(acts@) =~= pump(queued).1);
                    },
                    _ => {
                        push_action(
                            &mut acts,
                            SessionAction::Respond { ticket, response: HttpResponse::bad_gateway() },
                        );
                        assert(actions_text(acts@) =~= seq![
                            ActionText::Respond { ticket, response: bad_gateway_text() },
                        ]);
                    },
                }
            },
        }
        acts
    }

    /// Takes in bytes read from the control stream.
    pub fn on_data(&mut self, bytes: &[u8]) -> (acts: Vec<SessionAction>)
        ensures
            (final(self)@, actions_text(acts@)) == on_bytes(old(self)@, bytes@),
    {
        let mut acts: Vec<SessionAction> = Vec::new();
        assert(actions_text(acts@) =~= Seq::empty());
        match self.phase {
            Phase::Bound => {
                append_bytes(&mut self.rx, bytes);
                let ghost fed = self@;
                self.pump(&mut acts);
                assert(actions_text(acts@) =~= pump(fed).1);
            },
            _ => {},
        }
        acts
    }

    /// The control stream ended, or a read or write on it failed.
    pub fn on_stream_failed(&mut self) -> (acts: Vec<SessionAction>)
        ensures
            (final(self)@, actions_text(acts@)) == on_stream_lost(old(self)@),
    {
        let mut acts: Vec<SessionAction> = Vec::new();
        assert(actions_text(acts@) =~= Seq::empty());
        match self.phase {
            Phase::Bound => {
                self.shut_down(&mut acts);
                assert(actions_text(acts@) =~= shut_down(old(self)@).1);
            },
            _ => {},
        }
        acts
    }

    /// The inbox was closed.
    pub fn on_inbox_closed(&mut self) -> (acts: Vec<SessionAction>)
        ensures
            (final(self)@, actions_text(acts@)) == on_inbox_lost(old(self)@),
    {
        let mut acts: Vec<SessionAction> = Vec::new();
        assert(actions_text(acts@) =~= Seq::empty());
        match self.phase {
            Phase::AwaitingStream => {
                push_action(
                    &mut acts,
                    SessionAction::Unregister { service_id: slice_to_vec(self.service_id.as_slice()) },
                );
                self.phase = Phase::Closed;
                self.inflight = None;
                self.waiting = Vec::new();
                self.rx = Vec::new();
                assert(self@.waiting =~= Seq::empty());
                assert(self@.rx =~= Seq::empty());
                assert(actions_text(acts@) =~= seq![
                    ActionText::Unregister { service_id: self@.service_id },
                ]);
            },
            Phase::Bound => {
                self.shut_down(&mut acts);
                assert(actions_text(acts@) =~= shut_down(old(self)@).1);
            },
            Phase::Closed => {},
        }
        acts
    }
}

} // verus!
