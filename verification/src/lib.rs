//! A real-time broadcast relay core: a connection registry that tracks live
//! sessions and fans text payloads out to every registered outbound handle,
//! and a per-connection session state machine that routes inbound transport
//! events and runs the heartbeat liveness protocol.

pub mod history;
pub mod registry;
pub mod session;
