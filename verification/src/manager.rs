//! The service manager: the one owner of the registry.
//!
//! It takes the registry's messages one at a time and answers each with
//! the action its owner has to carry out. Sessions, streams and response
//! mailboxes are named by handles; the manager passes them on untouched.

use vstd::prelude::*;
use crate::message::{
    HttpRequest, HttpResponse, RequestText, ResponseText, bad_gateway_text, bad_request_text,
    not_found_text,
};
use crate::registry::Registry;
use crate::route::{request_target, target_of};

verus! {

/// A message of the service manager's inbox.
#[derive(Clone, Debug, PartialEq, Eq)]
pub enum ServiceManagerMessage {
    /// A tenant request, and the ticket of the mailbox that awaits its
    /// response.
    ForwardRequest { request: HttpRequest, ticket: u64 },
    /// A new session asks for an id.
    RegisterService { service_id: Vec<u8>, session: u64 },
    /// An agent's control stream, with the id its handshake claimed.
    ForwardPrimaryStream { service_id: Vec<u8>, stream: u64 },
    /// A session has ended.
    UnregisterService { service_id: Vec<u8> },
}

/// A message as plain sequences.
pub enum MessageText {
    ForwardRequest { request: RequestText, ticket: u64 },
    RegisterService { service_id: Seq<u8>, session: u64 },
    ForwardPrimaryStream { service_id: Seq<u8>, stream: u64 },
    UnregisterService { service_id: Seq<u8> },
}

impl View for ServiceManagerMessage {
    type V = MessageText;

    open spec fn view(&self) -> MessageText {
        match *self {
            ServiceManagerMessage::ForwardRequest { request, ticket } => MessageText::ForwardRequest {
                request: request@,
                ticket,
            },
            ServiceManagerMessage::RegisterService {
                service_id,
                session,
            } => MessageText::RegisterService { service_id: service_id@, session },
            ServiceManagerMessage::ForwardPrimaryStream {
                service_id,
                stream,
            } => MessageText::ForwardPrimaryStream { service_id: service_id@, stream },
            ServiceManagerMessage::UnregisterService {
                service_id,
            } => MessageText::UnregisterService { service_id: service_id@ },
        }
    }
}

/// What the manager's owner has to do after a message.
#[derive(Clone, Debug, PartialEq, Eq)]
pub enum ServiceManagerAction {
    /// Nothing.
    Nothing,
    /// The session was registered: tell it so.
    Registered { session: u64 },
    /// The id is taken: tell the session it was refused.
    Refused { session: u64 },
    /// Put the request into the inbox of `session`.
    DeliverRequest { session: u64, request: HttpRequest, ticket: u64 },
    /// Put the stream into the inbox of `session`.
    DeliverStream { session: u64, stream: u64 },
    /// Close a stream and drop it.
    CloseStream { stream: u64 },
    /// Complete the mailbox of `ticket` with `response`.
    Respond { ticket: u64, response: HttpResponse },
}

/// An action as plain sequences.
pub enum ManagerActionText {
    Nothing,
    Registered { session: u64 },
    Refused { session: u64 },
    DeliverRequest { session: u64, request: RequestText, ticket: u64 },
    DeliverStream { session: u64, stream: u64 },
    CloseStream { stream: u64 },
    Respond { ticket: u64, response: ResponseText },
}

impl View for ServiceManagerAction {
    type V = ManagerActionText;

    open spec fn view(&self) -> ManagerActionText {
        match *self {
            ServiceManagerAction::Nothing => ManagerActionText::Nothing,
            ServiceManagerAction::Registered { session } => ManagerActionText::Registered { session },
            ServiceManagerAction::Refused { session } => ManagerActionText::Refused { session },
            ServiceManagerAction::DeliverRequest {
                session,
                request,
                ticket,
            } => ManagerActionText::DeliverRequest { session, request: request@, ticket },
            ServiceManagerAction::DeliverStream {
                session,
                stream,
            } => ManagerActionText::DeliverStream { session, stream },
            ServiceManagerAction::CloseStream { stream } => ManagerActionText::CloseStream { stream },
            ServiceManagerAction::Respond { ticket, response } => ManagerActionText::Respond {
                ticket,
                response: response@,
            },
        }
    }
}

/// The state of the service manager.
pub struct ManagerState {
    /// The root domain.
    pub domain: Seq<u8>,
    /// The registered services and their sessions.
    pub services: Map<Seq<u8>, u64>,
}

/// What a message does to the manager, and what it asks for.
pub open spec fn manage(s: ManagerState, m: MessageText) -> (ManagerState, ManagerActionText) {
    match m {
        MessageText::RegisterService { service_id, session } => if s.services.contains_key(
            service_id,
        ) {
            (s, ManagerActionText::Refused { session })
        } else {
            (
                ManagerState { services: s.services.insert(service_id, session), ..s },
                ManagerActionText::Registered { session },
            )
        },
        MessageText::UnregisterService { service_id } => (
            ManagerState { services: s.services.remove(service_id), ..s },
            ManagerActionText::Nothing,
        ),
        MessageText::ForwardPrimaryStream { service_id, stream } => if s.services.contains_key(
            service_id,
        ) {
            (s, ManagerActionText::DeliverStream { session: s.services[service_id], stream })
        } else {
            (s, ManagerActionText::CloseStream { stream })
        },
        MessageText::ForwardRequest { request, ticket } => match target_of(request, s.domain) {
            None => (s, ManagerActionText::Respond { ticket, response: bad_request_text() }),
            Some(id) => if s.services.contains_key(id) {
                (s, ManagerActionText::DeliverRequest { session: s.services[id], request, ticket })
            } else {
                (s, ManagerActionText::Respond { ticket, response: not_found_text() })
            },
        },
    }
}

/// What to do instead of a delivery whose inbox turned out to be closed:
/// a request is answered with `502`, a stream is closed.
pub open spec fn instead_of(a: ManagerActionText) -> ManagerActionText {
    match a {
        ManagerActionText::DeliverRequest { ticket, .. } => ManagerActionText::Respond {
            ticket,
            response: bad_gateway_text(),
        },
        ManagerActionText::DeliverStream { stream, .. } => ManagerActionText::CloseStream { stream },
        _ => ManagerActionText::Nothing,
    }
}

/// The service manager.
pub struct ServiceManager {
    domain: Vec<u8>,
    registry: Registry,
}

impl ServiceManager {
    /// The root domain and the registered services.
    pub closed spec fn view(&self) -> ManagerState {
        ManagerState { domain: self.domain@, services: self.registry@ }
    }

    /// No two registered sessions share a service id.
    pub closed spec fn wf(&self) -> bool {
        self.registry.wf()
    }

    /// A manager for the root domain `domain`, with nothing registered.
    pub fn new(domain: Vec<u8>) -> (m: ServiceManager)
        ensures
            m.wf(),
            m@ == (ManagerState { domain: domain@, services: Map::empty() }),
    {
        ServiceManager { domain, registry: Registry::new() }
    }

    /// The session registered under `service_id`, if any.
    pub fn lookup(&self, service_id: &[u8]) -> (session: Option<u64>)
        requires
            self.wf(),
        ensures
            session == if self@.services.contains_key(service_id@) {
                Some(self@.services[service_id@])
            } else {
                None
            },
    {
        self.registry.lookup(service_id)
    }

    /// Handles one message.
    pub fn handle(&mut self, msg: ServiceManagerMessage) -> (action: ServiceManagerAction)
        requires
            old(self).wf(),
        ensures
            final(self).wf(),
            (final(self)@, action@) == manage(old(self)@, msg@),
    {
        match msg {
            ServiceManagerMessage::RegisterService { service_id, session } => {
                match self.registry.register(service_id, session) {
                    Ok(_) => ServiceManagerAction::Registered { session },
                    Err(_) => ServiceManagerAction::Refused { session },
                }
            },
            ServiceManagerMessage::UnregisterService { service_id } => {
                let _ = self.registry.unregister(service_id.as_slice());
                ServiceManagerAction::Nothing
            },
            ServiceManagerMessage::ForwardPrimaryStream { service_id, stream } => {
                match self.registry.lookup(service_id.as_slice()) {
                    Some(session) => ServiceManagerAction::DeliverStream { session, stream },
                    None => ServiceManagerAction::CloseStream { stream },
                }
            },
            ServiceManagerMessage::ForwardRequest { request, ticket } => {
                match request_target(&request, self.domain.as_slice()) {
                    None => ServiceManagerAction::Respond {
                        ticket,
                        response: HttpResponse::bad_request(),
                    },
                    Some(id) => match self.registry.lookup(id.as_slice()) {
                        Some(session) => ServiceManagerAction::DeliverRequest {
                            session,
                            request,
                            ticket,
                        },
                        None => ServiceManagerAction::Respond {
                            ticket,
                            response: HttpResponse::not_found(),
                        },
                    },
                }
            },
        }
    }
}

/// Turns a delivery that found its inbox closed into what is done
/// instead.
pub fn undelivered(action: ServiceManagerAction) -> (next: ServiceManagerAction)
    ensures
        next@ == instead_of(action@),
{
    match action {
        ServiceManagerAction::DeliverRequest { session: _, request: _, ticket } => {
            ServiceManagerAction::Respond { ticket, response: HttpResponse::bad_gateway() }
        },
        ServiceManagerAction::DeliverStream { session: _, stream } => {
            ServiceManagerAction::CloseStream { stream }
        },
        _ => ServiceManagerAction::Nothing,
    }
}

} // verus!
