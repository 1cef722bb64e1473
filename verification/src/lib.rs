//! Sans-I/O core of a reverse HTTP tunnel: the wire framing between the
//! rendezvous server and its agents, the service registry, the per-agent
//! session state machine and the request dispatcher.
//!
//! Nothing here touches a socket. Callers feed the state machines with
//! events and carry out the actions they return.

pub mod agent;
pub mod bytes;
pub mod dispatch;
pub mod head;
pub mod invariants;
pub mod keygen;
pub mod manager;
pub mod message;
pub mod registry;
pub mod route;
pub mod session;
pub mod wire;
