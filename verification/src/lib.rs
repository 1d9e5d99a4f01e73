//! A SignalR protocol library: message framing, protocol messages, the
//! adaptors that turn hub results into protocol message streams, the
//! bookkeeping of in-flight invocations and the routing decisions of
//! clients and servers.

pub mod framing;
pub mod protocol;
pub mod messages;
pub mod streams;
pub mod responses;
pub mod registry;
pub mod connection;
pub mod hub;
pub mod client;
pub mod server;
pub mod invocation;
