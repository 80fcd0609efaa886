//! The versioned envelopes exchanged between the resident daemon and its clients.
use vstd::prelude::*;

verus! {

/// The daemon protocol version this build speaks.
pub const CURRENT_DAEMON_PROTOCOL_VERSION: u32 = 1;

/// A client's greeting.
#[derive(Debug, PartialEq, Eq)]
pub struct HelloRequest {
    pub protocol_version: u32,
    pub client_version: String,
}

impl HelloRequest {
    /// A greeting at the current protocol version.
    pub fn current(client_version: &str) -> (h: HelloRequest)
        ensures
            h.protocol_version == CURRENT_DAEMON_PROTOCOL_VERSION,
            h.client_version@ == client_version@,
    {
        HelloRequest { protocol_version: CURRENT_DAEMON_PROTOCOL_VERSION, client_version: client_version.to_owned() }
    }
}

/// A request to stop the daemon after a grace period.
#[derive(Clone, Copy, Debug, PartialEq, Eq)]
pub struct ShutdownRequest {
    pub grace_period_millis: u64,
}

/// The daemon's answer to a greeting.
#[derive(Debug, PartialEq, Eq)]
pub struct HelloReply {
    pub protocol_version: u32,
    pub daemon_version: String,
    pub daemon_instance_id: String,
    pub capabilities: Vec<String>,
}

/// What the daemon acknowledged.
#[derive(Clone, Copy, Debug, PartialEq, Eq)]
pub enum DaemonAction {
    Cancel,
    Shutdown,
}

} // verus!
