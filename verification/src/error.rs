//! The failure kinds of a session.

use vstd::prelude::*;

verus! {

/// Why a handshake or a single packet was given up.
#[derive(Debug, Clone, Copy, PartialEq, Eq, Structural)]
pub enum NetError {
    /// The control connection or the datagram socket could not be set up.
    Connect,
    /// The server answered with an explicit failure or a garbled line.
    Protocol,
    /// The attempt budget ran out before the awaited answer arrived.
    Timeout,
    /// A snapshot does not fit the wire layout, or bytes do not hold one.
    Serialization,
    /// A socket read or write failed.
    TransportIo,
}

/// A short description of each failure kind.
pub open spec fn description(e: NetError) -> Seq<char> {
    match e {
        NetError::Connect => "connection could not be set up"@,
        NetError::Protocol => "protocol failure reported by the server"@,
        NetError::Timeout => "timed out waiting for the server"@,
        NetError::Serialization => "snapshot does not fit the packet layout"@,
        NetError::TransportIo => "socket read or write failed"@,
    }
}

impl NetError {
    /// A short description, for messages.
    pub fn describe(&self) -> (res: &'static str)
        ensures
            res@ == description(*self),
    {
        match self {
            NetError::Connect => "connection could not be set up",
            NetError::Protocol => "protocol failure reported by the server",
            NetError::Timeout => "timed out waiting for the server",
            NetError::Serialization => "snapshot does not fit the packet layout",
            NetError::TransportIo => "socket read or write failed",
        }
    }
}

} // verus!
