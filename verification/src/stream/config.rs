//! What a stream listener is configured with.

use vstd::prelude::*;

verus! {

/// What a stream listener or a stream service carries.
#[derive(Debug, Clone, Copy, PartialEq, Eq, Structural)]
pub enum StreamProtocol {
    Tcp,
    Udp,
}

/// A port and the transport to listen with on it.
#[derive(Debug, Clone, Copy, PartialEq, Eq, Structural)]
pub struct StreamConfig {
    pub port: u16,
    pub protocol: StreamProtocol,
}

impl StreamConfig {
    /// A listener on `port` with `protocol`.
    pub fn new(port: u16, protocol: StreamProtocol) -> (r: StreamConfig)
        ensures
            r == (StreamConfig { port, protocol }),
    {
        StreamConfig { port, protocol }
    }
}

} // verus!
