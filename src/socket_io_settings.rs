use vstd::prelude::*;

verus! {

/// The timing and size limits announced to a client when it connects.
#[derive(Debug, Clone, Copy, PartialEq, Eq)]
pub struct SocketIoSettings {
    /// How often the server pings, in milliseconds.
    pub ping_interval_millis: u64,
    /// How long the server waits for a pong, in milliseconds.
    pub ping_timeout_millis: u64,
    /// The largest payload accepted, in bytes.
    pub max_payload_size: usize,
}

impl SocketIoSettings {
    pub fn get_ping_interval(&self) -> (r: u64)
        ensures
            r == self.ping_interval_millis,
    {
        self.ping_interval_millis
    }

    pub fn get_ping_timeout(&self) -> (r: u64)
        ensures
            r == self.ping_timeout_millis,
    {
        self.ping_timeout_millis
    }

    pub fn get_max_payload_size(&self) -> (r: usize)
        ensures
            r == self.max_payload_size,
    {
        self.max_payload_size
    }
}

} // verus!
